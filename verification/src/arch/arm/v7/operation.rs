//! ARMv7-M instructions as the decoder reports them.
use vstd::prelude::*;
use crate::arch::arm::registers::{ArmCondition, Register};
use crate::general_assembly::shift::Shift;

verus! {

/// Whether an instruction sets the flags: fixed, or set when outside an
/// IT block exactly when the value is false.
#[derive(Debug, Clone, Copy, PartialEq, Eq, Structural)]
pub enum SetFlags {
    /// Fixed.
    Literal(bool),
    /// Depends on whether the instruction is in an IT block.
    InITBlock(bool),
}

/// A shift of a register operand by a constant.
#[derive(Debug, Clone, Copy, PartialEq, Eq, Structural)]
pub struct ImmShift {
    /// The number of steps.
    pub shift_n: u8,
    /// The kind of shift.
    pub shift_t: Shift,
}

/// The ARMv7-M operations with their arguments; a field that the encoding
/// may leave out is optional.
#[derive(Debug)]
pub enum V7Operation {
    AdcImmediate { s: Option<bool>, rd: Option<Register>, rn: Register, imm: u32 },
    AdcRegister { s: Option<SetFlags>, rd: Option<Register>, rn: Register, rm: Register, shift: Option<ImmShift> },
    AddImmediate { s: Option<SetFlags>, rd: Option<Register>, rn: Register, imm: u32 },
    AddRegister { s: Option<SetFlags>, rd: Option<Register>, rn: Register, rm: Register, shift: Option<ImmShift> },
    AddSPImmediate { s: Option<bool>, rd: Option<Register>, imm: u32 },
    AddSPRegister { s: Option<bool>, rd: Option<Register>, rm: Register, shift: Option<ImmShift> },
    Adr { rd: Register, add: bool, imm: u32 },
    AndImmediate { s: Option<bool>, rd: Option<Register>, rn: Register, imm: u32, carry: Option<bool> },
    AndRegister { s: Option<SetFlags>, rd: Option<Register>, rn: Register, rm: Register, shift: Option<ImmShift> },
    AsrImmediate { s: Option<SetFlags>, rd: Register, rm: Register, imm: u32 },
    AsrRegister { s: Option<SetFlags>, rd: Register, rn: Register, rm: Register },
    B { condition: ArmCondition, imm: u32 },
    Bfc { rd: Register, lsb: u32, msb: u32 },
    Bfi { rd: Register, rn: Register, lsb: u32, msb: u32 },
    BicImmediate { s: Option<bool>, rd: Option<Register>, rn: Register, imm: u32, carry: Option<bool> },
    BicRegister { s: Option<SetFlags>, rd: Option<Register>, rn: Register, rm: Register, shift: Option<ImmShift> },
    Bkpt { imm: u32 },
    Bl { imm: u32 },
    Blx { rm: Register },
    Bx { rm: Register },
    Cbz { non: Option<bool>, rn: Register, imm: u32 },
    Cdp { coproc: u8, opc1: u8, crd: u8, crn: u8, crm: u8, opc2: u8 },
    Clrex,
    Clz { rd: Register, rm: Register },
    CmnImmediate { rn: Register, imm: u32 },
    CmnRegister { rn: Register, rm: Register, shift: Option<ImmShift> },
    CmpImmediate { rn: Register, imm: u32 },
    CmpRegister { rn: Register, rm: Register, shift: Option<ImmShift> },
    Cps { enable: bool, disable: bool, affect_pri: bool, affect_fault: bool },
    Dbg { option: u8 },
    Dmb { option: Option<u8> },
    Dsb { option: Option<u8> },
    EorImmediate { s: Option<bool>, rd: Option<Register>, rn: Register, imm: u32, carry: Option<bool> },
    EorRegister { s: Option<SetFlags>, rd: Option<Register>, rn: Register, rm: Register, shift: Option<ImmShift> },
    Isb { option: Option<u8> },
    It { conds: Vec<ArmCondition> },
    Ldm { w: Option<bool>, rn: Register, registers: Vec<Register> },
    Ldmdb { w: Option<bool>, rn: Register, registers: Vec<Register> },
    LdrImmediate { w: Option<bool>, add: bool, index: bool, rt: Register, rn: Register, imm: u32 },
    LdrLiteral { add: bool, rt: Register, imm: u32 },
    LdrRegister { w: Option<bool>, rt: Register, rn: Register, rm: Register, shift: Option<ImmShift> },
    LdrbImmediate { w: Option<bool>, add: Option<bool>, index: bool, rt: Register, rn: Register, imm: Option<u32> },
    LdrbLiteral { add: Option<bool>, rt: Register, imm: u32 },
    LdrbRegister { add: Option<bool>, rt: Register, rn: Register, rm: Register, shift: Option<ImmShift> },
    Ldrbt { rt: Register, rn: Register, imm: Option<u32> },
    LdrdImmediate { w: Option<bool>, add: Option<bool>, index: Option<bool>, rt: Register, rt2: Register, rn: Register, imm: u32 },
    LdrdLiteral { w: Option<bool>, add: Option<bool>, index: Option<bool>, rt: Register, rt2: Register, imm: u32 },
    Ldrex { rt: Register, rn: Register, imm: u32 },
    Ldrexb { rt: Register, rn: Register },
    Ldrexh { rt: Register, rn: Register },
    LdrhImmediate { w: Option<bool>, add: Option<bool>, index: Option<bool>, rt: Register, rn: Register, imm: u32 },
    LdrhLiteral { add: Option<bool>, rt: Register, imm: u32 },
    LdrhRegister { rt: Register, rn: Register, rm: Register, shift: Option<ImmShift> },
    Ldrht { rt: Register, rn: Register, imm: Option<u32> },
    LdrsbImmediate { add: bool, index: bool, wback: bool, rt: Register, rn: Register, imm: Option<u32> },
    LdrsbLiteral { add: bool, rt: Register, imm: u32 },
    LdrsbRegister { rt: Register, rn: Register, rm: Register, shift: Option<ImmShift> },
    Ldrsbt { rt: Register, rn: Register, imm: u32 },
    LdrshImmediate { add: bool, index: bool, wback: bool, rt: Register, rn: Register, imm: Option<u32> },
    LdrshLiteral { add: bool, rt: Register, imm: u32 },
    LdrshRegister { rt: Register, rn: Register, rm: Register, shift: Option<ImmShift> },
    Ldrsht { rt: Register, rn: Register, imm: Option<u32> },
    Ldrt { rt: Register, rn: Register, imm: Option<u32> },
    LdcImmediate { coproc: u8, crd: u8, rn: Register, imm: Option<u32>, add: bool, w: bool, index: bool },
    LdcLiteral { coproc: u8, crd: u8, imm: u32, add: bool, index: bool },
    LslImmediate { s: Option<SetFlags>, rd: Register, rm: Register, imm: u8 },
    LslRegister { s: Option<SetFlags>, rd: Register, rn: Register, rm: Register },
    LsrImmediate { s: Option<SetFlags>, rd: Register, rm: Register, imm: u8 },
    LsrRegister { s: Option<SetFlags>, rd: Register, rn: Register, rm: Register },
    Mcrr { coproc: u8, opc1: u8, rt: Register, rt2: Register, crm: u8 },
    Mcr { coproc: u8, opc1: u8, opc2: Option<u8>, rt: Register, crm: u8, crn: u8 },
    Mla { rd: Register, rn: Register, rm: Register, ra: Register },
    Mls { rd: Register, rn: Register, rm: Register, ra: Register },
    MovImmediate { s: Option<SetFlags>, rd: Register, imm: u32, carry: Option<bool> },
    MovRegister { s: Option<bool>, rd: Register, rm: Register },
    Movt { rd: Register, imm: u16 },
    Mrrc { coproc: u8, opc1: u8, rt: Register, rt2: Register, crm: u8 },
    Mrc { coproc: u8, opc1: u8, opc2: Option<u8>, rt: Register, crm: u8, crn: u8 },
    Mrs { rd: Register, sysm: u8 },
    Msr { rn: Register, mask: u8, sysm: u8 },
    Mul { s: Option<SetFlags>, rd: Option<Register>, rn: Register, rm: Register },
    MvnImmediate { s: Option<bool>, rd: Register, carry: Option<bool>, imm: u32 },
    MvnRegister { s: Option<SetFlags>, rd: Register, rm: Register, shift: Option<ImmShift> },
    Nop,
    OrnImmediate { s: Option<bool>, rd: Option<Register>, rn: Register, carry: Option<bool>, imm: u32 },
    OrnRegister { s: Option<bool>, rd: Option<Register>, rn: Register, rm: Register, shift: Option<ImmShift> },
    OrrImmediate { s: Option<bool>, rd: Option<Register>, rn: Register, carry: Option<bool>, imm: u32 },
    OrrRegister { s: Option<SetFlags>, rd: Option<Register>, rn: Register, rm: Register, shift: Option<ImmShift> },
    Pkh { tb: bool, rd: Option<Register>, rn: Register, rm: Register, shift: Option<ImmShift> },
    PldImmediate { add: Option<bool>, rn: Register, imm: u32 },
    PldLiteral { add: Option<bool>, imm: u32 },
    PldRegister { rn: Register, rm: Register, shift: Option<ImmShift> },
    PliImmediate { add: Option<bool>, rn: Option<Register>, imm: u32 },
    PliRegister { rn: Register, rm: Register, shift: Option<ImmShift> },
    Pop { registers: Vec<Register> },
    Push { registers: Vec<Register> },
    Qadd { rd: Option<Register>, rm: Register, rn: Register },
    Qadd16 { rd: Option<Register>, rn: Register, rm: Register },
    Qadd8 { rd: Option<Register>, rn: Register, rm: Register },
    Qasx { rd: Option<Register>, rn: Register, rm: Register },
    Qdadd { rd: Option<Register>, rm: Register, rn: Register },
    Qdsub { rd: Option<Register>, rm: Register, rn: Register },
    Qsax { rd: Option<Register>, rn: Register, rm: Register },
    Qsub { rd: Option<Register>, rm: Register, rn: Register },
    Qsub16 { rd: Option<Register>, rn: Register, rm: Register },
    Qsub8 { rd: Option<Register>, rn: Register, rm: Register },
    Rbit { rm: Register, rd: Register },
    Rev { rd: Register, rm: Register },
    Rev16 { rd: Register, rm: Register },
    Revsh { rd: Register, rm: Register },
    RorImmediate { s: Option<bool>, rd: Register, rm: Register, imm: u32 },
    RorRegister { s: Option<SetFlags>, rd: Register, rn: Register, rm: Register },
    Rrx { s: Option<bool>, rd: Register, rm: Register },
    RsbImmediate { s: Option<SetFlags>, rd: Option<Register>, rn: Register, imm: u32 },
    RsbRegister { s: Option<bool>, rd: Option<Register>, rn: Register, rm: Register, shift: Option<ImmShift> },
    Sadd16 { rd: Option<Register>, rn: Register, rm: Register },
    Sadd8 { rd: Option<Register>, rn: Register, rm: Register },
    Sasx { rd: Option<Register>, rn: Register, rm: Register },
    SbcImmediate { s: Option<bool>, rd: Option<Register>, rn: Register, imm: u32 },
    SbcRegister { s: Option<SetFlags>, rd: Option<Register>, rn: Register, rm: Register, shift: Option<ImmShift> },
    Sbfx { rd: Register, rn: Register, lsb: u32, width: u32 },
    Sdiv { rd: Option<Register>, rn: Register, rm: Register },
    Sel { rd: Option<Register>, rn: Register, rm: Register },
    Sev,
    Svc { imm: u8 },
    Shadd16 { rd: Option<Register>, rn: Register, rm: Register },
    Shadd8 { rd: Option<Register>, rn: Register, rm: Register },
    Shasx { rd: Option<Register>, rn: Register, rm: Register },
    Shsax { rd: Option<Register>, rn: Register, rm: Register },
    Shsub16 { rd: Option<Register>, rn: Register, rm: Register },
    Shsub8 { rd: Option<Register>, rn: Register, rm: Register },
    Smla { n_high: bool, m_high: bool, rd: Register, rn: Register, rm: Register, ra: Register },
    Smlad { x: Option<bool>, rd: Register, rn: Register, rm: Register, ra: Register },
    Smlal { rdlo: Register, rdhi: Register, rn: Register, rm: Register },
    SmlalSelective { n_high: bool, m_high: bool, rdlo: Register, rdhi: Register, rn: Register, rm: Register },
    Smlald { x: Option<bool>, rdlo: Register, rdhi: Register, rn: Register, rm: Register },
    Smlaw { m_high: bool, rd: Register, rn: Register, rm: Register, ra: Register },
    Smlsd { m_swap: Option<bool>, rd: Register, rn: Register, rm: Register, ra: Register },
    Smlsld { m_swap: Option<bool>, rdlo: Register, rdhi: Register, rn: Register, rm: Register },
    Smmla { round: Option<bool>, rd: Register, rn: Register, rm: Register, ra: Register },
    Smmls { round: Option<bool>, rd: Register, rn: Register, rm: Register, ra: Register },
    Smmul { round: Option<bool>, rd: Register, rn: Register, rm: Register },
    Smuad { m_swap: Option<bool>, rd: Register, rn: Register, rm: Register },
    Smul { n_high: bool, m_high: bool, rd: Option<Register>, rn: Register, rm: Register },
    Smull { rdlo: Register, rdhi: Register, rn: Register, rm: Register },
    Smulw { m_high: bool, rd: Option<Register>, rn: Register, rm: Register },
    Smusd { m_swap: Option<bool>, rd: Option<Register>, rn: Register, rm: Register },
    Ssat { rd: Register, imm: u32, rn: Register, shift: Option<ImmShift> },
    Ssat16 { rd: Register, imm: u32, rn: Register },
    Ssax { rd: Option<Register>, rn: Register, rm: Register },
    Ssub16 { rd: Option<Register>, rn: Register, rm: Register },
    Ssub8 { rd: Option<Register>, rn: Register, rm: Register },
    Stm { w: Option<bool>, rn: Register, registers: Vec<Register> },
    Stmdb { w: Option<bool>, rn: Register, registers: Vec<Register> },
    StrImmediate { w: Option<bool>, index: Option<bool>, add: bool, rt: Register, rn: Register, imm: u32 },
    StrRegister { rt: Register, rn: Register, rm: Register, shift: Option<ImmShift> },
    StrbImmediate { w: Option<bool>, index: Option<bool>, add: bool, rt: Register, rn: Register, imm: u32 },
    StrbRegister { rt: Register, rn: Register, rm: Register, shift: Option<ImmShift> },
    Strbt { rt: Register, rn: Register, imm: Option<u32> },
    StrdImmediate { w: Option<bool>, index: Option<bool>, add: bool, rt: Register, rt2: Register, rn: Register, imm: Option<u32> },
    Strex { rd: Register, rt: Register, rn: Register, imm: Option<u32> },
    Strexb { rd: Register, rt: Register, rn: Register },
    Strexh { rd: Register, rt: Register, rn: Register },
    StrhImmediate { index: bool, add: bool, w: bool, rt: Register, rn: Register, imm: Option<u32> },
    StrhRegister { rt: Register, rn: Register, rm: Register, shift: Option<ImmShift> },
    Strht { rt: Register, rn: Register, imm: Option<u32> },
    Strt { rt: Register, rn: Register, imm: Option<u32> },
    SubImmediate { s: Option<SetFlags>, rd: Option<Register>, rn: Register, imm: u32 },
    SubRegister { s: Option<SetFlags>, rd: Option<Register>, rn: Register, rm: Register, shift: Option<ImmShift> },
    Stc { coproc: u8, crd: u8, rn: Register, imm: Option<u32>, add: bool, w: bool, index: bool },
    SubSpMinusImmediate { s: Option<bool>, rd: Option<Register>, imm: u32 },
    SubSpMinusRegister { s: Option<bool>, rd: Option<Register>, rm: Register, shift: Option<ImmShift> },
    Sxtab { rd: Option<Register>, rn: Register, rm: Register, rotation: Option<u32> },
    Sxtab16 { rd: Option<Register>, rn: Register, rm: Register, rotation: Option<u32> },
    Sxtah { rd: Option<Register>, rn: Register, rm: Register, rotation: Option<u32> },
    Sxtb { rd: Register, rm: Register, rotation: Option<u32> },
    Sxtb16 { rd: Option<Register>, rm: Register, rotation: Option<u32> },
    Sxth { rd: Register, rm: Register, rotation: Option<u32> },
    Tb { is_tbh: Option<bool>, rn: Register, rm: Register },
    TeqImmediate { rn: Register, carry: Option<bool>, imm: u32 },
    TeqRegister { rn: Register, rm: Register, shift: Option<ImmShift> },
    TstImmediate { rn: Register, carry: Option<bool>, imm: u32 },
    TstRegister { rn: Register, rm: Register, shift: Option<ImmShift> },
    Uadd16 { rd: Option<Register>, rn: Register, rm: Register },
    Uadd8 { rd: Option<Register>, rn: Register, rm: Register },
    Uasx { rd: Option<Register>, rn: Register, rm: Register },
    Ubfx { rd: Register, rn: Register, lsb: u32, width: u32 },
    Udf { imm: u32 },
    Udiv { rd: Option<Register>, rn: Register, rm: Register },
    Uhadd16 { rd: Option<Register>, rn: Register, rm: Register },
    Uhadd8 { rd: Option<Register>, rn: Register, rm: Register },
    Uhasx { rd: Option<Register>, rn: Register, rm: Register },
    Uhsax { rd: Option<Register>, rn: Register, rm: Register },
    Uhsub16 { rd: Option<Register>, rn: Register, rm: Register },
    Uhsub8 { rd: Option<Register>, rn: Register, rm: Register },
    Umaal { rdlo: Register, rdhi: Register, rn: Register, rm: Register },
    Umlal { rdlo: Register, rdhi: Register, rn: Register, rm: Register },
    Umull { rdlo: Register, rdhi: Register, rn: Register, rm: Register },
    Uqadd16 { rd: Option<Register>, rn: Register, rm: Register },
    Uqadd8 { rd: Option<Register>, rn: Register, rm: Register },
    Uqasx { rd: Option<Register>, rn: Register, rm: Register },
    Uqsax { rd: Option<Register>, rn: Register, rm: Register },
    Uqsub16 { rd: Option<Register>, rn: Register, rm: Register },
    Uqsub8 { rd: Option<Register>, rn: Register, rm: Register },
    Uqsad8 { rd: Option<Register>, rn: Register, rm: Register },
    Usada8 { rd: Register, rn: Register, rm: Register, ra: Register },
    Usad8 { rd: Option<Register>, rn: Register, rm: Register },
    Usat { rd: Register, imm: u32, rn: Register, shift: Option<ImmShift> },
    Usat16 { rd: Register, imm: u32, rn: Register },
    Usax { rd: Option<Register>, rn: Register, rm: Register },
    Usub16 { rd: Option<Register>, rn: Register, rm: Register },
    Usub8 { rd: Option<Register>, rn: Register, rm: Register },
    Uxtab { rd: Option<Register>, rn: Register, rm: Register, rotation: Option<u32> },
    Uxtab16 { rd: Option<Register>, rn: Register, rm: Register, rotation: Option<u32> },
    Uxtah { rd: Option<Register>, rn: Register, rm: Register, rotation: Option<u32> },
    Uxtb { rd: Register, rm: Register, rotation: Option<u32> },
    Uxtb16 { rd: Option<Register>, rm: Register, rotation: Option<u32> },
    Uxth { rd: Register, rm: Register, rotation: Option<u32> },
    Wfe,
    Wfi,
    Yield,
}

/// Whether the flags are set: a fixed value, or outside an IT block
/// exactly when the value is false and inside one exactly when it is true;
/// an absent value sets no flags.
pub open spec fn sets_flags(s: Option<SetFlags>, in_it_block: bool) -> bool {
    match s {
        Some(SetFlags::Literal(b)) => b,
        Some(SetFlags::InITBlock(b)) => (!in_it_block) != b,
        None => false,
    }
}

/// Whether the flags are set (see [`sets_flags`]).
pub fn local_unwrap(s: Option<SetFlags>, in_it_block: bool) -> (r: bool)
    ensures
        r == sets_flags(s, in_it_block),
{
    match s {
        Some(SetFlags::Literal(b)) => b,
        Some(SetFlags::InITBlock(b)) => (!in_it_block) ^ b,
        None => false,
    }
}

} // verus!
