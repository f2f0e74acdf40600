//! ARM registers and condition codes, and their general assembly names.
use vstd::prelude::*;
use crate::general_assembly::condition::Condition;
use crate::general_assembly::operand::{DataWord, Operand};

verus! {

/// A core register.
#[derive(Debug, Clone, Copy, PartialEq, Eq, Structural)]
pub enum Register {
    R0,
    R1,
    R2,
    R3,
    R4,
    R5,
    R6,
    R7,
    R8,
    R9,
    R10,
    R11,
    R12,
    SP,
    LR,
    PC,
}

/// A special register.
#[derive(Debug, Clone, Copy, PartialEq, Eq, Structural)]
pub enum SpecialRegister {
    APSR,
    IAPSR,
    EAPSR,
    XPSR,
    IPSR,
    EPSR,
    IEPSR,
    MSP,
    PSP,
    PRIMASK,
    CONTROL,
    FAULTMASK,
    BASEPRI,
}

/// An ARM condition code (`AL`: always).
#[derive(Debug, Clone, Copy, PartialEq, Eq, Structural)]
pub enum ArmCondition {
    EQ,
    NE,
    CS,
    CC,
    MI,
    PL,
    VS,
    VC,
    HI,
    LS,
    GE,
    LT,
    GT,
    LE,
    AL,
}

/// The general assembly name of a core register.
pub open spec fn register_name(r: Register) -> Seq<char> {
    match r {
        Register::R0 => "R0"@,
        Register::R1 => "R1"@,
        Register::R2 => "R2"@,
        Register::R3 => "R3"@,
        Register::R4 => "R4"@,
        Register::R5 => "R5"@,
        Register::R6 => "R6"@,
        Register::R7 => "R7"@,
        Register::R8 => "R8"@,
        Register::R9 => "R9"@,
        Register::R10 => "R10"@,
        Register::R11 => "R11"@,
        Register::R12 => "R12"@,
        Register::SP => "SP"@,
        Register::LR => "LR"@,
        Register::PC => "PC"@,
    }
}

/// The general assembly name of a special register.
pub open spec fn special_register_name(r: SpecialRegister) -> Seq<char> {
    match r {
        SpecialRegister::APSR => "APSR"@,
        SpecialRegister::IAPSR => "IAPSR"@,
        SpecialRegister::EAPSR => "EAPSR"@,
        SpecialRegister::XPSR => "XPSR"@,
        SpecialRegister::IPSR => "IPSR"@,
        SpecialRegister::EPSR => "EPSR"@,
        SpecialRegister::IEPSR => "IEPSR"@,
        SpecialRegister::MSP => "MSP"@,
        SpecialRegister::PSP => "PSP"@,
        SpecialRegister::PRIMASK => "PRIMASK"@,
        SpecialRegister::CONTROL => "CONTROL"@,
        SpecialRegister::FAULTMASK => "FAULTMASK"@,
        SpecialRegister::BASEPRI => "BASEPRI"@,
    }
}

/// The general assembly condition of an ARM condition code.
pub open spec fn condition_of(c: ArmCondition) -> Condition {
    match c {
        ArmCondition::EQ => Condition::EQ,
        ArmCondition::NE => Condition::NE,
        ArmCondition::CS => Condition::CS,
        ArmCondition::CC => Condition::CC,
        ArmCondition::MI => Condition::MI,
        ArmCondition::PL => Condition::PL,
        ArmCondition::VS => Condition::VS,
        ArmCondition::VC => Condition::VC,
        ArmCondition::HI => Condition::HI,
        ArmCondition::LS => Condition::LS,
        ArmCondition::GE => Condition::GE,
        ArmCondition::LT => Condition::LT,
        ArmCondition::GT => Condition::GT,
        ArmCondition::LE => Condition::LE,
        ArmCondition::AL => Condition::AL,
    }
}

/// A string literal as an owned string.
fn owned(s: &str) -> (r: String)
    ensures
        r@ == s@,
{
    s.to_owned()
}

/// The register operand of a core register.
pub fn arm_register_to_ga_operand(reg: &Register) -> (r: Operand)
    ensures
        r matches Operand::Register(name) && name@ == register_name(*reg),
{
    let name: String = match reg {
        Register::R0 => {
            proof { reveal_strlit("R0"); }
            owned("R0")
        },
        Register::R1 => {
            proof { reveal_strlit("R1"); }
            owned("R1")
        },
        Register::R2 => {
            proof { reveal_strlit("R2"); }
            owned("R2")
        },
        Register::R3 => {
            proof { reveal_strlit("R3"); }
            owned("R3")
        },
        Register::R4 => {
            proof { reveal_strlit("R4"); }
            owned("R4")
        },
        Register::R5 => {
            proof { reveal_strlit("R5"); }
            owned("R5")
        },
        Register::R6 => {
            proof { reveal_strlit("R6"); }
            owned("R6")
        },
        Register::R7 => {
            proof { reveal_strlit("R7"); }
            owned("R7")
        },
        Register::R8 => {
            proof { reveal_strlit("R8"); }
            owned("R8")
        },
        Register::R9 => {
            proof { reveal_strlit("R9"); }
            owned("R9")
        },
        Register::R10 => {
            proof { reveal_strlit("R10"); }
            owned("R10")
        },
        Register::R11 => {
            proof { reveal_strlit("R11"); }
            owned("R11")
        },
        Register::R12 => {
            proof { reveal_strlit("R12"); }
            owned("R12")
        },
        Register::SP => {
            proof { reveal_strlit("SP"); }
            owned("SP")
        },
        Register::LR => {
            proof { reveal_strlit("LR"); }
            owned("LR")
        },
        Register::PC => {
            proof { reveal_strlit("PC"); }
            owned("PC")
        },
    };
    Operand::Register(name)
}

/// The register operand of a special register.
pub fn arm_special_register_to_operand(reg: &SpecialRegister) -> (r: Operand)
    ensures
        r matches Operand::Register(name) && name@ == special_register_name(*reg),
{
    let name: String = match reg {
        SpecialRegister::APSR => {
            proof { reveal_strlit("APSR"); }
            owned("APSR")
        },
        SpecialRegister::IAPSR => {
            proof { reveal_strlit("IAPSR"); }
            owned("IAPSR")
        },
        SpecialRegister::EAPSR => {
            proof { reveal_strlit("EAPSR"); }
            owned("EAPSR")
        },
        SpecialRegister::XPSR => {
            proof { reveal_strlit("XPSR"); }
            owned("XPSR")
        },
        SpecialRegister::IPSR => {
            proof { reveal_strlit("IPSR"); }
            owned("IPSR")
        },
        SpecialRegister::EPSR => {
            proof { reveal_strlit("EPSR"); }
            owned("EPSR")
        },
        SpecialRegister::IEPSR => {
            proof { reveal_strlit("IEPSR"); }
            owned("IEPSR")
        },
        SpecialRegister::MSP => {
            proof { reveal_strlit("MSP"); }
            owned("MSP")
        },
        SpecialRegister::PSP => {
            proof { reveal_strlit("PSP"); }
            owned("PSP")
        },
        SpecialRegister::PRIMASK => {
            proof { reveal_strlit("PRIMASK"); }
            owned("PRIMASK")
        },
        SpecialRegister::CONTROL => {
            proof { reveal_strlit("CONTROL"); }
            owned("CONTROL")
        },
        SpecialRegister::FAULTMASK => {
            proof { reveal_strlit("FAULTMASK"); }
            owned("FAULTMASK")
        },
        SpecialRegister::BASEPRI => {
            proof { reveal_strlit("BASEPRI"); }
            owned("BASEPRI")
        },
    };
    Operand::Register(name)
}

/// The general assembly condition of an ARM condition code.
pub fn arm_cond_to_ga_cond(condition: &ArmCondition) -> (r: Condition)
    ensures
        r == condition_of(*condition),
{
    match condition {
        ArmCondition::EQ => Condition::EQ,
        ArmCondition::NE => Condition::NE,
        ArmCondition::CS => Condition::CS,
        ArmCondition::CC => Condition::CC,
        ArmCondition::MI => Condition::MI,
        ArmCondition::PL => Condition::PL,
        ArmCondition::VS => Condition::VS,
        ArmCondition::VC => Condition::VC,
        ArmCondition::HI => Condition::HI,
        ArmCondition::LS => Condition::LS,
        ArmCondition::GE => Condition::GE,
        ArmCondition::LT => Condition::LT,
        ArmCondition::GT => Condition::GT,
        ArmCondition::LE => Condition::LE,
        ArmCondition::AL => Condition::AL,
    }
}

/// The register operands of a list of core registers, in order.
pub fn arm_reg_list_to_ga_op_list(reg_list: &Vec<Register>) -> (r: Vec<Operand>)
    ensures
        r@.len() == reg_list@.len(),
        forall|i: int| 0 <= i < r@.len() ==> ((#[trigger] r@[i]) matches Operand::Register(name) && name@ == register_name(reg_list@[i])),
{
    let mut ret: Vec<Operand> = Vec::new();
    let mut i: usize = 0;
    while i < reg_list.len()
        invariant
            i <= reg_list@.len(),
            ret@.len() == i,
            forall|j: int| 0 <= j < i ==> ((#[trigger] ret@[j]) matches Operand::Register(name) && name@ == register_name(reg_list@[j])),
        decreases reg_list.len() - i,
    {
        ret.push(arm_register_to_ga_operand(&reg_list[i]));
        i = i + 1;
    }
    ret
}

/// The 32 bit immediate operand of a value.
pub fn immediate32(v: u32) -> (r: Operand)
    ensures
        r == Operand::Immediate(DataWord::Word32(v)),
{
    Operand::Immediate(DataWord::Word32(v))
}


/// The name of a core register.
pub fn register_to_string(reg: &Register) -> (r: String)
    ensures
        r@ == register_name(*reg),
{
    match arm_register_to_ga_operand(reg) {
        Operand::Register(name) => name,
        _ => owned("R0"),
    }
}

} // verus!
