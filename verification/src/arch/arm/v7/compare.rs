//! Comparing an ARMv6-M instruction with an ARMv7-M one, and the ARMv7-M
//! form of the ARMv6-M operations that have one.
use vstd::prelude::*;
use crate::arch::arm::registers::Register;
use crate::arch::arm::v6::instruction::{InstructionWidth, V6Instruction, V6Operation};
use crate::arch::arm::v7::operation::{SetFlags, V7Operation};

verus! {

/// The register `o` holds, else `d`.
pub open spec fn register_or(o: Option<Register>, d: Register) -> Register {
    match o {
        Some(r) => r,
        None => d,
    }
}

/// The register `o` holds, else `d`.
fn or_register(o: Option<Register>, d: Register) -> (r: Register)
    ensures
        r == register_or(o, d),
{
    match o {
        Some(r) => r,
        None => d,
    }
}

/// Whether two register lists agree on every position that both have.
pub open spec fn lists_agree(a: Seq<Register>, b: Seq<Register>) -> bool {
    forall|i: int| 0 <= i < a.len() && i < b.len() ==> a[i] == b[i]
}

/// Whether two register lists agree on every position that both have.
fn registers_agree(a: &Vec<Register>, b: &Vec<Register>) -> (r: bool)
    ensures
        r == lists_agree(a@, b@),
{
    let mut i: usize = 0;
    while i < a.len() && i < b.len()
        invariant
            i <= a@.len(),
            forall|j: int| 0 <= j < i ==> a@[j] == b@[j],
        decreases a.len() - i,
    {
        if a[i] != b[i] {
            return false;
        }
        i = i + 1;
    }
    true
}

/// The pairs of operations whose comparison is not defined: system,
/// barrier, hint and deprecated operations.
pub open spec fn comparison_undefined(a: V6Operation, b: V7Operation) -> bool {
    match a {
        V6Operation::CPS { .. } => b is Cps,
        V6Operation::MRS { .. } => b is Mrs,
        V6Operation::CPY | V6Operation::DMB { .. } | V6Operation::DSB { .. } | V6Operation::ISB { .. }
        | V6Operation::MSRReg { .. } | V6Operation::SEV | V6Operation::SVC { .. } | V6Operation::UDF { .. }
        | V6Operation::WFE | V6Operation::WFI | V6Operation::YIELD => true,
        _ => false,
    }
}

/// Whether the ARMv6-M operation `a` and the ARMv7-M operation `b` are the
/// same operation on the same operands: a destination the ARMv7-M form
/// leaves out is its first source (the stack pointer for the stack pointer
/// forms), an immediate it leaves out is zero, and register lists agree as
/// far as both go. (The register forms of the stores compare their base
/// register with the offset register.)
pub open spec fn same_operation(a: V6Operation, b: V7Operation) -> bool {
    same_operation_0(a, b)
    || same_operation_1(a, b)
    || same_operation_2(a, b)
    || same_operation_3(a, b)
    || same_operation_4(a, b)
    || same_operation_5(a, b)
    || same_operation_6(a, b)
    || same_operation_7(a, b)
    || same_operation_8(a, b)
    || same_operation_9(a, b)
    || same_operation_10(a, b)
}

/// [`same_operation`] on the ARMv6-M operations from `ADCReg` to `ADR`
/// (false on the others).
pub open spec fn same_operation_0(a: V6Operation, b: V7Operation) -> bool {
    match a {
        V6Operation::ADCReg { m, n, d } => match b {
            V7Operation::AdcRegister { rd, rn, rm, .. } => m == rm && n == rn && d == register_or(rd, rn),
            _ => false,
        },
        V6Operation::ADDImm { imm, n, d } => match b {
            V7Operation::AddImmediate { rd, rn, imm: imm7, .. } => imm == imm7 && n == rn && d == register_or(rd, rn),
            _ => false,
        },
        V6Operation::ADDReg { m, n, d } => match b {
            V7Operation::AddRegister { rd, rn, rm, .. } => m == rm && n == rn && d == register_or(rd, rn),
            _ => false,
        },
        V6Operation::ADDImmSP { d, imm } => match b {
            V7Operation::AddSPImmediate { rd, imm: imm7, .. } => imm == imm7 && d == register_or(rd, Register::SP),
            _ => false,
        },
        V6Operation::ADDRegSP { d, m } => match b {
            V7Operation::AddSPRegister { rd, rm, .. } => m == rm && d == register_or(rd, Register::SP),
            _ => false,
        },
        V6Operation::ADR { d, imm } => match b {
            V7Operation::Adr { rd, imm: imm7, .. } => imm == imm7 && d == rd,
            _ => false,
        },
        _ => false,
    }
}

/// [`same_operation`] on the ARMv6-M operations from `ANDReg` to `BKPT`
/// (false on the others).
pub open spec fn same_operation_1(a: V6Operation, b: V7Operation) -> bool {
    match a {
        V6Operation::ANDReg { m, dn } => match b {
            V7Operation::AndRegister { rd, rn, rm, .. } => rd is None && m == rm && dn == rn,
            _ => false,
        },
        V6Operation::ASRImm { imm, m, d } => match b {
            V7Operation::AsrImmediate { rd, rm, imm: imm7, .. } => imm == imm7 && m == rm && d == rd,
            _ => false,
        },
        V6Operation::ASRReg { m, dn } => match b {
            V7Operation::AsrRegister { rd, rn, rm, .. } => m == rm && dn == rn && dn == rd,
            _ => false,
        },
        V6Operation::B { cond, imm } => match b {
            V7Operation::B { condition, imm: imm7 } => cond == condition && imm == imm7,
            _ => false,
        },
        V6Operation::BICReg { m, dn } => match b {
            V7Operation::BicRegister { rd, rn, rm, .. } => m == rm && dn == register_or(rd, rn) && dn == rn,
            _ => false,
        },
        V6Operation::BKPT { imm } => match b {
            V7Operation::Bkpt { imm: imm7 } => imm == imm7,
            _ => false,
        },
        _ => false,
    }
}

/// [`same_operation`] on the ARMv6-M operations from `BL` to `CMPReg`
/// (false on the others).
pub open spec fn same_operation_2(a: V6Operation, b: V7Operation) -> bool {
    match a {
        V6Operation::BL { imm } => match b {
            V7Operation::Bl { imm: imm7 } => imm7 == imm,
            _ => false,
        },
        V6Operation::BLXReg { m } => match b {
            V7Operation::Blx { rm } => m == rm,
            _ => false,
        },
        V6Operation::BX { m } => match b {
            V7Operation::Bx { rm } => m == rm,
            _ => false,
        },
        V6Operation::CMNReg { m, n } => match b {
            V7Operation::CmnRegister { rn, rm, shift } => m == rm && n == rn && shift is None,
            _ => false,
        },
        V6Operation::CMPImm { n, imm } => match b {
            V7Operation::CmpImmediate { rn, imm: imm7 } => n == rn && imm == imm7,
            _ => false,
        },
        V6Operation::CMPReg { m, n } => match b {
            V7Operation::CmpRegister { rn, rm, shift } => m == rm && n == rn && shift is None,
            _ => false,
        },
        _ => false,
    }
}

/// [`same_operation`] on the ARMv6-M operations from `EORReg` to `LDRBImm`
/// (false on the others).
pub open spec fn same_operation_3(a: V6Operation, b: V7Operation) -> bool {
    match a {
        V6Operation::EORReg { m, dn } => match b {
            V7Operation::EorRegister { rd, rn, rm, .. } => m == rm && dn == register_or(rd, rn) && dn == rn,
            _ => false,
        },
        V6Operation::LDM { n, reg_list } => match b {
            V7Operation::Ldm { rn, registers, .. } => n == rn && lists_agree(reg_list@, registers@),
            _ => false,
        },
        V6Operation::LDRImm { imm, n, t } => match b {
            V7Operation::LdrImmediate { rt, rn, imm: imm7, .. } => imm == imm7 && n == rn && t == rt,
            _ => false,
        },
        V6Operation::LDRLiteral { t, imm } => match b {
            V7Operation::LdrLiteral { rt, imm: imm7, .. } => t == rt && imm == imm7,
            _ => false,
        },
        V6Operation::LDRReg { m, n, t } => match b {
            V7Operation::LdrRegister { rt, rn, rm, .. } => m == rm && n == rn && t == rt,
            _ => false,
        },
        V6Operation::LDRBImm { imm, n, t } => match b {
            V7Operation::LdrbImmediate { rt, rn, imm: imm7, .. } => imm == imm7.unwrap_or(0u32) && n == rn && t == rt,
            _ => false,
        },
        _ => false,
    }
}

/// [`same_operation`] on the ARMv6-M operations from `LDRBReg` to `LSLImm`
/// (false on the others).
pub open spec fn same_operation_4(a: V6Operation, b: V7Operation) -> bool {
    match a {
        V6Operation::LDRBReg { m, n, t } => match b {
            V7Operation::LdrbRegister { rt, rn, rm, .. } => m == rm && n == rn && t == rt,
            _ => false,
        },
        V6Operation::LDRHImm { imm, n, t } => match b {
            V7Operation::LdrhImmediate { rt, rn, imm: imm7, .. } => imm == imm7 && n == rn && t == rt,
            _ => false,
        },
        V6Operation::LDRHReg { m, n, t } => match b {
            V7Operation::LdrhRegister { rt, rn, rm, .. } => m == rm && n == rn && t == rt,
            _ => false,
        },
        V6Operation::LDRSBReg { m, n, t } => match b {
            V7Operation::LdrsbRegister { rt, rn, rm, .. } => m == rm && n == rn && t == rt,
            _ => false,
        },
        V6Operation::LDRSH { m, n, t } => match b {
            V7Operation::LdrshRegister { rt, rn, rm, .. } => m == rm && n == rn && t == rt,
            _ => false,
        },
        V6Operation::LSLImm { imm, m, d } => match b {
            V7Operation::LslImmediate { rd, rm, imm: imm7, .. } => imm == imm7 as u32 && m == rm && d == rd,
            _ => false,
        },
        _ => false,
    }
}

/// [`same_operation`] on the ARMv6-M operations from `LSLReg` to `MUL`
/// (false on the others).
pub open spec fn same_operation_5(a: V6Operation, b: V7Operation) -> bool {
    match a {
        V6Operation::LSLReg { m, dn } => match b {
            V7Operation::LslRegister { rd, rn, rm, .. } => m == rm && dn == rd && dn == rn,
            _ => false,
        },
        V6Operation::LSRImm { imm, m, d } => match b {
            V7Operation::LsrImmediate { rd, rm, imm: imm7, .. } => imm == imm7 as u32 && m == rm && d == rd,
            _ => false,
        },
        V6Operation::LSRReg { m, dn } => match b {
            V7Operation::LsrRegister { rd, rn, rm, .. } => m == rm && dn == rd && dn == rn,
            _ => false,
        },
        V6Operation::MOVImm { d, imm } => match b {
            V7Operation::MovImmediate { rd, imm: imm7, .. } => d == rd && imm == imm7,
            _ => false,
        },
        V6Operation::MOVReg { m, d, set_flags } => match b {
            V7Operation::MovRegister { s, rd, rm } => m == rm && d == rd && set_flags == s.unwrap_or(false),
            _ => false,
        },
        V6Operation::MUL { n, dm } => match b {
            V7Operation::Mul { rd, rn, rm, .. } => n == rn && dm == register_or(rd, rm) && dm == rm,
            _ => false,
        },
        _ => false,
    }
}

/// [`same_operation`] on the ARMv6-M operations from `MVNReg` to `REV`
/// (false on the others).
pub open spec fn same_operation_6(a: V6Operation, b: V7Operation) -> bool {
    match a {
        V6Operation::MVNReg { m, d } => match b {
            V7Operation::MvnRegister { rd, rm, .. } => m == rm && d == rd,
            _ => false,
        },
        V6Operation::NOP => match b {
            V7Operation::Nop => true,
            _ => false,
        },
        V6Operation::ORRReg { m, dn } => match b {
            V7Operation::OrrRegister { rd, rn, rm, .. } => m == rm && dn == rn && dn == register_or(rd, rn),
            _ => false,
        },
        V6Operation::POP { reg_list } => match b {
            V7Operation::Pop { registers } => lists_agree(reg_list@, registers@),
            _ => false,
        },
        V6Operation::PUSH { reg_list } => match b {
            V7Operation::Push { registers } => lists_agree(reg_list@, registers@),
            _ => false,
        },
        V6Operation::REV { m, d } => match b {
            V7Operation::Rev { rd, rm } => m == rm && d == rd,
            _ => false,
        },
        _ => false,
    }
}

/// [`same_operation`] on the ARMv6-M operations from `REV16` to `STM`
/// (false on the others).
pub open spec fn same_operation_7(a: V6Operation, b: V7Operation) -> bool {
    match a {
        V6Operation::REV16 { m, d } => match b {
            V7Operation::Rev16 { rd, rm } => m == rm && d == rd,
            _ => false,
        },
        V6Operation::REVSH { m, d } => match b {
            V7Operation::Revsh { rd, rm } => m == rm && d == rd,
            _ => false,
        },
        V6Operation::RORReg { m, dn } => match b {
            V7Operation::RorRegister { rd, rn, rm, .. } => m == rm && dn == rn && dn == rd,
            _ => false,
        },
        V6Operation::RSBImm { n, d } => match b {
            V7Operation::RsbImmediate { rd, rn, .. } => n == rn && d == register_or(rd, rn),
            _ => false,
        },
        V6Operation::SBCReg { m, dn } => match b {
            V7Operation::SbcRegister { rd, rn, rm, .. } => m == rm && dn == rn && dn == register_or(rd, rn),
            _ => false,
        },
        V6Operation::STM { n, reg_list } => match b {
            V7Operation::Stm { rn, registers, .. } => n == rn && lists_agree(reg_list@, registers@),
            _ => false,
        },
        _ => false,
    }
}

/// [`same_operation`] on the ARMv6-M operations from `STRImm` to `STRHReg`
/// (false on the others).
pub open spec fn same_operation_8(a: V6Operation, b: V7Operation) -> bool {
    match a {
        V6Operation::STRImm { imm, n, t } => match b {
            V7Operation::StrImmediate { rt, rn, imm: imm7, .. } => imm == imm7 && n == rn && t == rt,
            _ => false,
        },
        V6Operation::STRReg { m, n, t } => match b {
            V7Operation::StrRegister { rt, rm, .. } => m == rm && n == rm && t == rt,
            _ => false,
        },
        V6Operation::STRBImm { imm, n, t } => match b {
            V7Operation::StrbImmediate { rt, rn, imm: imm7, .. } => imm == imm7 && n == rn && t == rt,
            _ => false,
        },
        V6Operation::STRBReg { m, n, t } => match b {
            V7Operation::StrbRegister { rt, rm, .. } => m == rm && n == rm && t == rt,
            _ => false,
        },
        V6Operation::STRHImm { imm, n, t } => match b {
            V7Operation::StrhImmediate { rt, rn, imm: imm7, .. } => imm == imm7.unwrap_or(0u32) && n == rn && t == rt,
            _ => false,
        },
        V6Operation::STRHReg { m, n, t } => match b {
            V7Operation::StrhRegister { rt, rm, .. } => m == rm && n == rm && t == rt,
            _ => false,
        },
        _ => false,
    }
}

/// [`same_operation`] on the ARMv6-M operations from `SUBImm` to `TSTReg`
/// (false on the others).
pub open spec fn same_operation_9(a: V6Operation, b: V7Operation) -> bool {
    match a {
        V6Operation::SUBImm { imm, n, d } => match b {
            V7Operation::SubImmediate { rd, rn, imm: imm7, .. } => imm == imm7 && n == rn && d == register_or(rd, rn),
            _ => false,
        },
        V6Operation::SUBReg { m, n, d } => match b {
            V7Operation::SubRegister { rd, rn, rm, .. } => m == rm && n == rn && d == register_or(rd, rn),
            _ => false,
        },
        V6Operation::SUBImmSP { imm } => match b {
            V7Operation::SubSpMinusImmediate { rd, imm: imm7, .. } => imm == imm7 && register_or(rd, Register::SP) == Register::SP,
            _ => false,
        },
        V6Operation::SXTB { m, d } => match b {
            V7Operation::Sxtb { rd, rm, .. } => m == rm && d == rd,
            _ => false,
        },
        V6Operation::SXTH { m, d } => match b {
            V7Operation::Sxth { rd, rm, .. } => m == rm && d == rd,
            _ => false,
        },
        V6Operation::TSTReg { m, n } => match b {
            V7Operation::TstRegister { rn, rm, .. } => m == rm && n == rn,
            _ => false,
        },
        _ => false,
    }
}

/// [`same_operation`] on the ARMv6-M operations from `UXTB` to `UXTH`
/// (false on the others).
pub open spec fn same_operation_10(a: V6Operation, b: V7Operation) -> bool {
    match a {
        V6Operation::UXTB { m, d } => match b {
            V7Operation::Uxtb { rd, rm, .. } => m == rm && d == rd,
            _ => false,
        },
        V6Operation::UXTH { m, d } => match b {
            V7Operation::Uxth { rd, rm, .. } => m == rm && d == rd,
            _ => false,
        },
        _ => false,
    }
}

/// The encoding size in bits of an ARMv6-M instruction.
pub open spec fn v6_bits(i: V6Instruction) -> usize {
    if i.width == InstructionWidth::Bit16 {
        16
    } else {
        32
    }
}

/// Whether an ARMv6-M instruction and an ARMv7-M instruction of the given
/// size in bits are the same instruction: same size, same operation.
pub open spec fn same_instruction(lhs: V6Instruction, rhs: (usize, V7Operation)) -> bool {
    v6_bits(lhs) == rhs.0 && same_operation(lhs.operation, rhs.1)
}

/// Whether the ARMv6-M instruction `lhs` and the ARMv7-M instruction `rhs`,
/// given with its size in bits, are the same instruction (see
/// [`same_operation`]). The comparison of system, barrier, hint and
/// deprecated operations of equal size is not defined.
pub fn eq_trampoline(lhs: &V6Instruction, rhs: &(usize, V7Operation)) -> (r: bool)
    requires
        v6_bits(*lhs) == rhs.0 ==> !comparison_undefined(lhs.operation, rhs.1),
    ensures
        r == same_instruction(*lhs, *rhs),
{
    let size: usize = if lhs.is_16bit() { 16 } else { 32 };
    if size != rhs.0 {
        return false;
    }
    operations_agree_0(&lhs.operation, &rhs.1)
        || operations_agree_1(&lhs.operation, &rhs.1)
        || operations_agree_2(&lhs.operation, &rhs.1)
        || operations_agree_3(&lhs.operation, &rhs.1)
        || operations_agree_4(&lhs.operation, &rhs.1)
        || operations_agree_5(&lhs.operation, &rhs.1)
        || operations_agree_6(&lhs.operation, &rhs.1)
        || operations_agree_7(&lhs.operation, &rhs.1)
        || operations_agree_8(&lhs.operation, &rhs.1)
        || operations_agree_9(&lhs.operation, &rhs.1)
        || operations_agree_10(&lhs.operation, &rhs.1)
}

/// Whether the operations agree, on the ARMv6-M operations from `ADCReg`
/// to `ADR` (see [`same_operation_0`]).
fn operations_agree_0(a: &V6Operation, b: &V7Operation) -> (r: bool)
    ensures
        r == same_operation_0(*a, *b),
{
    match a {
        V6Operation::ADCReg { m, n, d } => match b {
            V7Operation::AdcRegister { rd, rn, rm, .. } => *m == *rm && *n == *rn && *d == or_register(*rd, *rn),
            _ => false,
        },
        V6Operation::ADDImm { imm, n, d } => match b {
            V7Operation::AddImmediate { rd, rn, imm: imm7, .. } => *imm == *imm7 && *n == *rn && *d == or_register(*rd, *rn),
            _ => false,
        },
        V6Operation::ADDReg { m, n, d } => match b {
            V7Operation::AddRegister { rd, rn, rm, .. } => *m == *rm && *n == *rn && *d == or_register(*rd, *rn),
            _ => false,
        },
        V6Operation::ADDImmSP { d, imm } => match b {
            V7Operation::AddSPImmediate { rd, imm: imm7, .. } => *imm == *imm7 && *d == or_register(*rd, Register::SP),
            _ => false,
        },
        V6Operation::ADDRegSP { d, m } => match b {
            V7Operation::AddSPRegister { rd, rm, .. } => *m == *rm && *d == or_register(*rd, Register::SP),
            _ => false,
        },
        V6Operation::ADR { d, imm } => match b {
            V7Operation::Adr { rd, imm: imm7, .. } => *imm == *imm7 && *d == *rd,
            _ => false,
        },
        _ => false,
    }
}

/// Whether the operations agree, on the ARMv6-M operations from `ANDReg`
/// to `BKPT` (see [`same_operation_1`]).
fn operations_agree_1(a: &V6Operation, b: &V7Operation) -> (r: bool)
    ensures
        r == same_operation_1(*a, *b),
{
    match a {
        V6Operation::ANDReg { m, dn } => match b {
            V7Operation::AndRegister { rd, rn, rm, .. } => (*rd).is_none() && *m == *rm && *dn == *rn,
            _ => false,
        },
        V6Operation::ASRImm { imm, m, d } => match b {
            V7Operation::AsrImmediate { rd, rm, imm: imm7, .. } => *imm == *imm7 && *m == *rm && *d == *rd,
            _ => false,
        },
        V6Operation::ASRReg { m, dn } => match b {
            V7Operation::AsrRegister { rd, rn, rm, .. } => *m == *rm && *dn == *rn && *dn == *rd,
            _ => false,
        },
        V6Operation::B { cond, imm } => match b {
            V7Operation::B { condition, imm: imm7 } => *cond == *condition && *imm == *imm7,
            _ => false,
        },
        V6Operation::BICReg { m, dn } => match b {
            V7Operation::BicRegister { rd, rn, rm, .. } => *m == *rm && *dn == or_register(*rd, *rn) && *dn == *rn,
            _ => false,
        },
        V6Operation::BKPT { imm } => match b {
            V7Operation::Bkpt { imm: imm7 } => *imm == *imm7,
            _ => false,
        },
        _ => false,
    }
}

/// Whether the operations agree, on the ARMv6-M operations from `BL`
/// to `CMPReg` (see [`same_operation_2`]).
fn operations_agree_2(a: &V6Operation, b: &V7Operation) -> (r: bool)
    ensures
        r == same_operation_2(*a, *b),
{
    match a {
        V6Operation::BL { imm } => match b {
            V7Operation::Bl { imm: imm7 } => *imm7 == *imm,
            _ => false,
        },
        V6Operation::BLXReg { m } => match b {
            V7Operation::Blx { rm } => *m == *rm,
            _ => false,
        },
        V6Operation::BX { m } => match b {
            V7Operation::Bx { rm } => *m == *rm,
            _ => false,
        },
        V6Operation::CMNReg { m, n } => match b {
            V7Operation::CmnRegister { rn, rm, shift } => *m == *rm && *n == *rn && (*shift).is_none(),
            _ => false,
        },
        V6Operation::CMPImm { n, imm } => match b {
            V7Operation::CmpImmediate { rn, imm: imm7 } => *n == *rn && *imm == *imm7,
            _ => false,
        },
        V6Operation::CMPReg { m, n } => match b {
            V7Operation::CmpRegister { rn, rm, shift } => *m == *rm && *n == *rn && (*shift).is_none(),
            _ => false,
        },
        _ => false,
    }
}

/// Whether the operations agree, on the ARMv6-M operations from `EORReg`
/// to `LDRBImm` (see [`same_operation_3`]).
fn operations_agree_3(a: &V6Operation, b: &V7Operation) -> (r: bool)
    ensures
        r == same_operation_3(*a, *b),
{
    match a {
        V6Operation::EORReg { m, dn } => match b {
            V7Operation::EorRegister { rd, rn, rm, .. } => *m == *rm && *dn == or_register(*rd, *rn) && *dn == *rn,
            _ => false,
        },
        V6Operation::LDM { n, reg_list } => match b {
            V7Operation::Ldm { rn, registers, .. } => *n == *rn && registers_agree(reg_list, registers),
            _ => false,
        },
        V6Operation::LDRImm { imm, n, t } => match b {
            V7Operation::LdrImmediate { rt, rn, imm: imm7, .. } => *imm == *imm7 && *n == *rn && *t == *rt,
            _ => false,
        },
        V6Operation::LDRLiteral { t, imm } => match b {
            V7Operation::LdrLiteral { rt, imm: imm7, .. } => *t == *rt && *imm == *imm7,
            _ => false,
        },
        V6Operation::LDRReg { m, n, t } => match b {
            V7Operation::LdrRegister { rt, rn, rm, .. } => *m == *rm && *n == *rn && *t == *rt,
            _ => false,
        },
        V6Operation::LDRBImm { imm, n, t } => match b {
            V7Operation::LdrbImmediate { rt, rn, imm: imm7, .. } => *imm == (*imm7).unwrap_or(0u32) && *n == *rn && *t == *rt,
            _ => false,
        },
        _ => false,
    }
}

/// Whether the operations agree, on the ARMv6-M operations from `LDRBReg`
/// to `LSLImm` (see [`same_operation_4`]).
fn operations_agree_4(a: &V6Operation, b: &V7Operation) -> (r: bool)
    ensures
        r == same_operation_4(*a, *b),
{
    match a {
        V6Operation::LDRBReg { m, n, t } => match b {
            V7Operation::LdrbRegister { rt, rn, rm, .. } => *m == *rm && *n == *rn && *t == *rt,
            _ => false,
        },
        V6Operation::LDRHImm { imm, n, t } => match b {
            V7Operation::LdrhImmediate { rt, rn, imm: imm7, .. } => *imm == *imm7 && *n == *rn && *t == *rt,
            _ => false,
        },
        V6Operation::LDRHReg { m, n, t } => match b {
            V7Operation::LdrhRegister { rt, rn, rm, .. } => *m == *rm && *n == *rn && *t == *rt,
            _ => false,
        },
        V6Operation::LDRSBReg { m, n, t } => match b {
            V7Operation::LdrsbRegister { rt, rn, rm, .. } => *m == *rm && *n == *rn && *t == *rt,
            _ => false,
        },
        V6Operation::LDRSH { m, n, t } => match b {
            V7Operation::LdrshRegister { rt, rn, rm, .. } => *m == *rm && *n == *rn && *t == *rt,
            _ => false,
        },
        V6Operation::LSLImm { imm, m, d } => match b {
            V7Operation::LslImmediate { rd, rm, imm: imm7, .. } => *imm == (*imm7 as u32) && *m == *rm && *d == *rd,
            _ => false,
        },
        _ => false,
    }
}

/// Whether the operations agree, on the ARMv6-M operations from `LSLReg`
/// to `MUL` (see [`same_operation_5`]).
fn operations_agree_5(a: &V6Operation, b: &V7Operation) -> (r: bool)
    ensures
        r == same_operation_5(*a, *b),
{
    match a {
        V6Operation::LSLReg { m, dn } => match b {
            V7Operation::LslRegister { rd, rn, rm, .. } => *m == *rm && *dn == *rd && *dn == *rn,
            _ => false,
        },
        V6Operation::LSRImm { imm, m, d } => match b {
            V7Operation::LsrImmediate { rd, rm, imm: imm7, .. } => *imm == (*imm7 as u32) && *m == *rm && *d == *rd,
            _ => false,
        },
        V6Operation::LSRReg { m, dn } => match b {
            V7Operation::LsrRegister { rd, rn, rm, .. } => *m == *rm && *dn == *rd && *dn == *rn,
            _ => false,
        },
        V6Operation::MOVImm { d, imm } => match b {
            V7Operation::MovImmediate { rd, imm: imm7, .. } => *d == *rd && *imm == *imm7,
            _ => false,
        },
        V6Operation::MOVReg { m, d, set_flags } => match b {
            V7Operation::MovRegister { s, rd, rm } => *m == *rm && *d == *rd && *set_flags == (*s).unwrap_or(false),
            _ => false,
        },
        V6Operation::MUL { n, dm } => match b {
            V7Operation::Mul { rd, rn, rm, .. } => *n == *rn && *dm == or_register(*rd, *rm) && *dm == *rm,
            _ => false,
        },
        _ => false,
    }
}

/// Whether the operations agree, on the ARMv6-M operations from `MVNReg`
/// to `REV` (see [`same_operation_6`]).
fn operations_agree_6(a: &V6Operation, b: &V7Operation) -> (r: bool)
    ensures
        r == same_operation_6(*a, *b),
{
    match a {
        V6Operation::MVNReg { m, d } => match b {
            V7Operation::MvnRegister { rd, rm, .. } => *m == *rm && *d == *rd,
            _ => false,
        },
        V6Operation::NOP => match b {
            V7Operation::Nop => true,
            _ => false,
        },
        V6Operation::ORRReg { m, dn } => match b {
            V7Operation::OrrRegister { rd, rn, rm, .. } => *m == *rm && *dn == *rn && *dn == or_register(*rd, *rn),
            _ => false,
        },
        V6Operation::POP { reg_list } => match b {
            V7Operation::Pop { registers } => registers_agree(reg_list, registers),
            _ => false,
        },
        V6Operation::PUSH { reg_list } => match b {
            V7Operation::Push { registers } => registers_agree(reg_list, registers),
            _ => false,
        },
        V6Operation::REV { m, d } => match b {
            V7Operation::Rev { rd, rm } => *m == *rm && *d == *rd,
            _ => false,
        },
        _ => false,
    }
}

/// Whether the operations agree, on the ARMv6-M operations from `REV16`
/// to `STM` (see [`same_operation_7`]).
fn operations_agree_7(a: &V6Operation, b: &V7Operation) -> (r: bool)
    ensures
        r == same_operation_7(*a, *b),
{
    match a {
        V6Operation::REV16 { m, d } => match b {
            V7Operation::Rev16 { rd, rm } => *m == *rm && *d == *rd,
            _ => false,
        },
        V6Operation::REVSH { m, d } => match b {
            V7Operation::Revsh { rd, rm } => *m == *rm && *d == *rd,
            _ => false,
        },
        V6Operation::RORReg { m, dn } => match b {
            V7Operation::RorRegister { rd, rn, rm, .. } => *m == *rm && *dn == *rn && *dn == *rd,
            _ => false,
        },
        V6Operation::RSBImm { n, d } => match b {
            V7Operation::RsbImmediate { rd, rn, .. } => *n == *rn && *d == or_register(*rd, *rn),
            _ => false,
        },
        V6Operation::SBCReg { m, dn } => match b {
            V7Operation::SbcRegister { rd, rn, rm, .. } => *m == *rm && *dn == *rn && *dn == or_register(*rd, *rn),
            _ => false,
        },
        V6Operation::STM { n, reg_list } => match b {
            V7Operation::Stm { rn, registers, .. } => *n == *rn && registers_agree(reg_list, registers),
            _ => false,
        },
        _ => false,
    }
}

/// Whether the operations agree, on the ARMv6-M operations from `STRImm`
/// to `STRHReg` (see [`same_operation_8`]).
fn operations_agree_8(a: &V6Operation, b: &V7Operation) -> (r: bool)
    ensures
        r == same_operation_8(*a, *b),
{
    match a {
        V6Operation::STRImm { imm, n, t } => match b {
            V7Operation::StrImmediate { rt, rn, imm: imm7, .. } => *imm == *imm7 && *n == *rn && *t == *rt,
            _ => false,
        },
        V6Operation::STRReg { m, n, t } => match b {
            V7Operation::StrRegister { rt, rm, .. } => *m == *rm && *n == *rm && *t == *rt,
            _ => false,
        },
        V6Operation::STRBImm { imm, n, t } => match b {
            V7Operation::StrbImmediate { rt, rn, imm: imm7, .. } => *imm == *imm7 && *n == *rn && *t == *rt,
            _ => false,
        },
        V6Operation::STRBReg { m, n, t } => match b {
            V7Operation::StrbRegister { rt, rm, .. } => *m == *rm && *n == *rm && *t == *rt,
            _ => false,
        },
        V6Operation::STRHImm { imm, n, t } => match b {
            V7Operation::StrhImmediate { rt, rn, imm: imm7, .. } => *imm == (*imm7).unwrap_or(0u32) && *n == *rn && *t == *rt,
            _ => false,
        },
        V6Operation::STRHReg { m, n, t } => match b {
            V7Operation::StrhRegister { rt, rm, .. } => *m == *rm && *n == *rm && *t == *rt,
            _ => false,
        },
        _ => false,
    }
}

/// Whether the operations agree, on the ARMv6-M operations from `SUBImm`
/// to `TSTReg` (see [`same_operation_9`]).
fn operations_agree_9(a: &V6Operation, b: &V7Operation) -> (r: bool)
    ensures
        r == same_operation_9(*a, *b),
{
    match a {
        V6Operation::SUBImm { imm, n, d } => match b {
            V7Operation::SubImmediate { rd, rn, imm: imm7, .. } => *imm == *imm7 && *n == *rn && *d == or_register(*rd, *rn),
            _ => false,
        },
        V6Operation::SUBReg { m, n, d } => match b {
            V7Operation::SubRegister { rd, rn, rm, .. } => *m == *rm && *n == *rn && *d == or_register(*rd, *rn),
            _ => false,
        },
        V6Operation::SUBImmSP { imm } => match b {
            V7Operation::SubSpMinusImmediate { rd, imm: imm7, .. } => *imm == *imm7 && or_register(*rd, Register::SP) == Register::SP,
            _ => false,
        },
        V6Operation::SXTB { m, d } => match b {
            V7Operation::Sxtb { rd, rm, .. } => *m == *rm && *d == *rd,
            _ => false,
        },
        V6Operation::SXTH { m, d } => match b {
            V7Operation::Sxth { rd, rm, .. } => *m == *rm && *d == *rd,
            _ => false,
        },
        V6Operation::TSTReg { m, n } => match b {
            V7Operation::TstRegister { rn, rm, .. } => *m == *rm && *n == *rn,
            _ => false,
        },
        _ => false,
    }
}

/// Whether the operations agree, on the ARMv6-M operations from `UXTB`
/// to `UXTH` (see [`same_operation_10`]).
fn operations_agree_10(a: &V6Operation, b: &V7Operation) -> (r: bool)
    ensures
        r == same_operation_10(*a, *b),
{
    match a {
        V6Operation::UXTB { m, d } => match b {
            V7Operation::Uxtb { rd, rm, .. } => *m == *rm && *d == *rd,
            _ => false,
        },
        V6Operation::UXTH { m, d } => match b {
            V7Operation::Uxth { rd, rm, .. } => *m == *rm && *d == *rd,
            _ => false,
        },
        _ => false,
    }
}

/// Whether an ARMv6-M operation has an ARMv7-M form.
pub open spec fn has_v7_form(op: V6Operation) -> bool {
    match op {
        V6Operation::ADCReg { .. } | V6Operation::ADDImm { .. } | V6Operation::ADDReg { .. }
        | V6Operation::ADDImmSP { .. } | V6Operation::ADDRegSP { .. } | V6Operation::ADR { .. }
        | V6Operation::ANDReg { .. } | V6Operation::ASRImm { .. } | V6Operation::ASRReg { .. }
        | V6Operation::B { .. } | V6Operation::BICReg { .. } | V6Operation::BKPT { .. } | V6Operation::BL { .. }
        | V6Operation::BLXReg { .. } | V6Operation::BX { .. } | V6Operation::CMNReg { .. }
        | V6Operation::CMPImm { .. } | V6Operation::CMPReg { .. } | V6Operation::EORReg { .. }
        | V6Operation::LDM { .. } | V6Operation::LDRImm { .. } | V6Operation::LDRLiteral { .. }
        | V6Operation::LDRReg { .. } => true,
        _ => false,
    }
}

/// The ARMv7-M form of an ARMv6-M operation: the same operands, flags set
/// outside IT blocks where the operation sets them, no shift, no write back,
/// and an offset added before the access.
pub open spec fn v7_form(op: V6Operation) -> V7Operation {
    match op {
        V6Operation::ADCReg { m, n, d } => V7Operation::AdcRegister {
            s: Some(SetFlags::InITBlock(false)),
            rd: Some(d),
            rn: n,
            rm: m,
            shift: None,
        },
        V6Operation::ADDImm { imm, n, d } => V7Operation::AddImmediate {
            s: Some(SetFlags::InITBlock(false)),
            rd: Some(d),
            rn: n,
            imm,
        },
        V6Operation::ADDReg { m, n, d } => V7Operation::AddRegister {
            s: Some(SetFlags::InITBlock(false)),
            rd: Some(d),
            rn: n,
            rm: m,
            shift: None,
        },
        V6Operation::ADDImmSP { d, imm } => V7Operation::AddSPImmediate { s: Some(false), rd: Some(d), imm },
        V6Operation::ADDRegSP { d, m } => V7Operation::AddSPRegister { s: Some(false), rd: Some(d), rm: m, shift: None },
        V6Operation::ADR { d, imm } => V7Operation::Adr { rd: d, add: true, imm },
        V6Operation::ANDReg { m, dn } => V7Operation::AndRegister {
            s: Some(SetFlags::InITBlock(false)),
            rd: Some(dn),
            rn: dn,
            rm: m,
            shift: None,
        },
        V6Operation::ASRImm { imm, m, d } => V7Operation::AsrImmediate {
            s: Some(SetFlags::InITBlock(false)),
            rd: d,
            rm: m,
            imm,
        },
        V6Operation::ASRReg { m, dn } => V7Operation::AsrRegister {
            s: Some(SetFlags::InITBlock(false)),
            rd: dn,
            rn: dn,
            rm: m,
        },
        V6Operation::B { cond, imm } => V7Operation::B { condition: cond, imm },
        V6Operation::BICReg { m, dn } => V7Operation::BicRegister {
            s: Some(SetFlags::InITBlock(false)),
            rd: Some(dn),
            rn: dn,
            rm: m,
            shift: None,
        },
        V6Operation::BKPT { imm } => V7Operation::Bkpt { imm },
        V6Operation::BL { imm } => V7Operation::Bl { imm },
        V6Operation::BLXReg { m } => V7Operation::Blx { rm: m },
        V6Operation::BX { m } => V7Operation::Bx { rm: m },
        V6Operation::CMNReg { m, n } => V7Operation::CmnRegister { rn: n, rm: m, shift: None },
        V6Operation::CMPImm { n, imm } => V7Operation::CmpImmediate { rn: n, imm },
        V6Operation::CMPReg { m, n } => V7Operation::CmpRegister { rn: n, rm: m, shift: None },
        V6Operation::EORReg { m, dn } => V7Operation::EorRegister {
            s: Some(SetFlags::InITBlock(false)),
            rd: Some(dn),
            rn: dn,
            rm: m,
            shift: None,
        },
        V6Operation::LDM { n, reg_list } => V7Operation::Ldm { w: None, rn: n, registers: reg_list },
        V6Operation::LDRImm { imm, n, t } => V7Operation::LdrImmediate {
            w: None,
            add: true,
            index: true,
            rt: t,
            rn: n,
            imm,
        },
        V6Operation::LDRLiteral { t, imm } => V7Operation::LdrLiteral { add: true, rt: t, imm },
        V6Operation::LDRReg { m, n, t } => V7Operation::LdrRegister { w: None, rt: t, rn: n, rm: m, shift: None },
        _ => V7Operation::Nop,
    }
}

/// The ARMv7-M form of an ARMv6-M operation that has one (see [`v7_form`]).
pub fn v6_to_v7(op: V6Operation) -> (r: V7Operation)
    requires
        has_v7_form(op),
    ensures
        r == v7_form(op),
{
    match op {
        V6Operation::ADCReg { m, n, d } => V7Operation::AdcRegister {
            s: Some(SetFlags::InITBlock(false)),
            rd: Some(d),
            rn: n,
            rm: m,
            shift: None,
        },
        V6Operation::ADDImm { imm, n, d } => V7Operation::AddImmediate {
            s: Some(SetFlags::InITBlock(false)),
            rd: Some(d),
            rn: n,
            imm,
        },
        V6Operation::ADDReg { m, n, d } => V7Operation::AddRegister {
            s: Some(SetFlags::InITBlock(false)),
            rd: Some(d),
            rn: n,
            rm: m,
            shift: None,
        },
        V6Operation::ADDImmSP { d, imm } => V7Operation::AddSPImmediate { s: Some(false), rd: Some(d), imm },
        V6Operation::ADDRegSP { d, m } => V7Operation::AddSPRegister { s: Some(false), rd: Some(d), rm: m, shift: None },
        V6Operation::ADR { d, imm } => V7Operation::Adr { rd: d, add: true, imm },
        V6Operation::ANDReg { m, dn } => V7Operation::AndRegister {
            s: Some(SetFlags::InITBlock(false)),
            rd: Some(dn),
            rn: dn,
            rm: m,
            shift: None,
        },
        V6Operation::ASRImm { imm, m, d } => V7Operation::AsrImmediate {
            s: Some(SetFlags::InITBlock(false)),
            rd: d,
            rm: m,
            imm,
        },
        V6Operation::ASRReg { m, dn } => V7Operation::AsrRegister {
            s: Some(SetFlags::InITBlock(false)),
            rd: dn,
            rn: dn,
            rm: m,
        },
        V6Operation::B { cond, imm } => V7Operation::B { condition: cond, imm },
        V6Operation::BICReg { m, dn } => V7Operation::BicRegister {
            s: Some(SetFlags::InITBlock(false)),
            rd: Some(dn),
            rn: dn,
            rm: m,
            shift: None,
        },
        V6Operation::BKPT { imm } => V7Operation::Bkpt { imm },
        V6Operation::BL { imm } => V7Operation::Bl { imm },
        V6Operation::BLXReg { m } => V7Operation::Blx { rm: m },
        V6Operation::BX { m } => V7Operation::Bx { rm: m },
        V6Operation::CMNReg { m, n } => V7Operation::CmnRegister { rn: n, rm: m, shift: None },
        V6Operation::CMPImm { n, imm } => V7Operation::CmpImmediate { rn: n, imm },
        V6Operation::CMPReg { m, n } => V7Operation::CmpRegister { rn: n, rm: m, shift: None },
        V6Operation::EORReg { m, dn } => V7Operation::EorRegister {
            s: Some(SetFlags::InITBlock(false)),
            rd: Some(dn),
            rn: dn,
            rm: m,
            shift: None,
        },
        V6Operation::LDM { n, reg_list } => V7Operation::Ldm { w: None, rn: n, registers: reg_list },
        V6Operation::LDRImm { imm, n, t } => V7Operation::LdrImmediate {
            w: None,
            add: true,
            index: true,
            rt: t,
            rn: n,
            imm,
        },
        V6Operation::LDRLiteral { t, imm } => V7Operation::LdrLiteral { add: true, rt: t, imm },
        V6Operation::LDRReg { m, n, t } => V7Operation::LdrRegister { w: None, rt: t, rn: n, rm: m, shift: None },
        _ => V7Operation::Nop,
    }
}

/// Converting and comparing agree: every ARMv6-M operation with an ARMv7-M
/// form other than the register AND (whose ARMv7-M form names its
/// destination, which the comparison refuses) compares equal to its form.
pub proof fn law_v7_form_compares_equal(op: V6Operation)
    requires
        has_v7_form(op),
        !(op is ANDReg),
    ensures
        same_operation(op, v7_form(op)),
{
}

} // verus!
