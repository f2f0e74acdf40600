//! Translation of ARMv7-M operations to general assembly, following the
//! pseudo code of the architecture reference manual.
use vstd::prelude::*;
use crate::arch::arm::registers::{ArmCondition, Register, arm_register_to_ga_operand, arm_cond_to_ga_cond, condition_of, register_name};
use crate::smt::bits::p;
use crate::symex::state::owned;
use crate::arch::arm::v7::operation::{ImmShift, V7Operation, local_unwrap, sets_flags};
use crate::arch::errors::ArchError;
use crate::general_assembly::condition::Condition;
use crate::general_assembly::operand::{DataWord, Operand};
use crate::general_assembly::operation::Operation;
use crate::general_assembly::shift::Shift;

verus! {

/// The special registers of the ARMv7-M profile.
#[derive(Debug, Clone, Copy, PartialEq, Eq, Structural)]
pub enum SpecialRegister {
    APSR,
    IAPSR,
    EAPSR,
    XPSR,
    IPSR,
    EPSR,
    IEPSR,
    MSP,
    PSP,
    PRIMASK,
    CONTROL,
    FAULTMASK,
    BASEPRI,
}

/// The general assembly name of a special register.
pub open spec fn special_name(r: SpecialRegister) -> Seq<char> {
    match r {
        SpecialRegister::APSR => "APSR"@,
        SpecialRegister::IAPSR => "IAPSR"@,
        SpecialRegister::EAPSR => "EAPSR"@,
        SpecialRegister::XPSR => "XPSR"@,
        SpecialRegister::IPSR => "IPSR"@,
        SpecialRegister::EPSR => "EPSR"@,
        SpecialRegister::IEPSR => "IEPSR"@,
        SpecialRegister::MSP => "MSP"@,
        SpecialRegister::PSP => "PSP"@,
        SpecialRegister::PRIMASK => "PRIMASK"@,
        SpecialRegister::CONTROL => "CONTROL"@,
        SpecialRegister::FAULTMASK => "FAULTMASK"@,
        SpecialRegister::BASEPRI => "BASEPRI"@,
    }
}

impl SpecialRegister {
    /// The register operand of the special register.
    pub fn local_into(&self) -> (r: Operand)
        ensures
            r matches Operand::Register(name) && name@ == special_name(*self),
    {
        let name: &str = match self {
            SpecialRegister::APSR => "APSR",
            SpecialRegister::IAPSR => "IAPSR",
            SpecialRegister::EAPSR => "EAPSR",
            SpecialRegister::XPSR => "XPSR",
            SpecialRegister::IPSR => "IPSR",
            SpecialRegister::EPSR => "EPSR",
            SpecialRegister::IEPSR => "IEPSR",
            SpecialRegister::MSP => "MSP",
            SpecialRegister::PSP => "PSP",
            SpecialRegister::PRIMASK => "PRIMASK",
            SpecialRegister::CONTROL => "CONTROL",
            SpecialRegister::FAULTMASK => "FAULTMASK",
            SpecialRegister::BASEPRI => "BASEPRI",
        };
        proof {
            reveal_strlit("APSR");
            reveal_strlit("IAPSR");
            reveal_strlit("EAPSR");
            reveal_strlit("XPSR");
            reveal_strlit("IPSR");
            reveal_strlit("EPSR");
            reveal_strlit("IEPSR");
            reveal_strlit("MSP");
            reveal_strlit("PSP");
            reveal_strlit("PRIMASK");
            reveal_strlit("CONTROL");
            reveal_strlit("FAULTMASK");
            reveal_strlit("BASEPRI");
        }
        Operand::Register(name.to_owned())
    }
}

/// The error of an operation that has no translation.
pub open spec fn untranslated() -> ArchError {
    ArchError::ImplementorStringError("operation without a translation")
}

/// Whether a shift whose carry is taken can be translated: the carry of a
/// rotation has no translation.
pub open spec fn carry_shift_ok(shift: Option<ImmShift>) -> bool {
    match shift {
        Some(sh) => sh.shift_t is Lsl || sh.shift_t is Asr || sh.shift_t is Lsr,
        None => true,
    }
}

/// Whether the operations without a translation include `op`: hints,
/// exclusive loads, coprocessor and system calls, saturating, selecting and
/// signed multiplying arithmetic.
pub open spec fn without_translation(op: V7Operation) -> bool {
    ||| op is Cdp
    ||| op is Clrex
    ||| op is Isb
    ||| op is Ldrex
    ||| op is Ldrexb
    ||| op is Ldrexh
    ||| op is LdcImmediate
    ||| op is LdcLiteral
    ||| op is Mcrr
    ||| op is Mcr
    ||| op is Mrrc
    ||| op is Mrc
    ||| op is PldImmediate
    ||| op is PldLiteral
    ||| op is PldRegister
    ||| op is PliImmediate
    ||| op is PliRegister
    ||| op is Qadd
    ||| op is Qadd16
    ||| op is Qadd8
    ||| op is Qasx
    ||| op is Qdadd
    ||| op is Qdsub
    ||| op is Qsax
    ||| op is Qsub
    ||| op is Qsub16
    ||| op is Qsub8
    ||| op is Sel
    ||| op is Sev
    ||| op is Svc
    ||| op is Smla
    ||| op is Smlad
    ||| op is Smlal
    ||| op is SmlalSelective
    ||| op is Smlald
    ||| op is Smlaw
    ||| op is Smlsd
    ||| op is Smlsld
    ||| op is Smmla
    ||| op is Smmls
    ||| op is Smmul
    ||| op is Smuad
    ||| op is Smul
    ||| op is Smull
    ||| op is Smulw
    ||| op is Smusd
    ||| op is Ssat
    ||| op is Ssat16
    ||| op is Ssax
    ||| op is Ssub16
    ||| op is Ssub8
    ||| op is Stc
    ||| op is Uqadd16
    ||| op is Uqadd8
    ||| op is Uqasx
    ||| op is Uqsax
    ||| op is Uqsub16
    ||| op is Uqsub8
    ||| op is Uqsad8
    ||| op is Usada8
    ||| op is Usad8
    ||| op is Usat
    ||| op is Usat16
    ||| op is Usub8
    ||| op is Wfe
    ||| op is Wfi
    ||| op is Yield
}

/// Whether `op`, inside an IT block or not, has a translation: one that has
/// one at all, with arguments that it can be translated with.
pub open spec fn translatable(op: V7Operation, in_it_block: bool) -> bool {
    match op {
        V7Operation::Bfc { lsb, msb, .. } => lsb <= msb && msb - lsb < 31,
        V7Operation::Bfi { lsb, msb, .. } => lsb < msb && lsb < 32 && msb - lsb < 32,
        V7Operation::Pop { registers } => registers.len() <= 16,
        V7Operation::Push { registers } => registers.len() <= 16 && !registers@.contains(Register::SP)
            && !registers@.contains(Register::PC),
        V7Operation::Ldm { registers, .. } => registers.len() <= 16,
        V7Operation::Ldmdb { registers, .. } => registers.len() <= 16,
        V7Operation::Stm { registers, .. } => registers.len() <= 16,
        V7Operation::Stmdb { registers, .. } => registers.len() <= 16,
        V7Operation::Sbfx { lsb, width, .. } => 1 <= width && width - 1 < 32 && lsb < 32 && lsb + width - 1 <= u32::MAX,
        V7Operation::Ubfx { lsb, width, .. } => 1 <= width && lsb + width - 1 <= u32::MAX,
        V7Operation::Cps { enable, disable, .. } => enable != disable,
        V7Operation::StrhRegister { shift, .. } => match shift {
            Some(sh) => sh.shift_t is Lsl,
            None => true,
        },
        V7Operation::AndRegister { shift, .. } => carry_shift_ok(shift),
        V7Operation::BicRegister { shift, .. } => carry_shift_ok(shift),
        V7Operation::TstRegister { shift, .. } => carry_shift_ok(shift),
        V7Operation::TeqRegister { shift, .. } => carry_shift_ok(shift),
        V7Operation::EorRegister { s, shift, .. } => sets_flags(s, in_it_block) ==> carry_shift_ok(shift),
        V7Operation::MvnRegister { s, shift, .. } => sets_flags(s, in_it_block) ==> carry_shift_ok(shift),
        V7Operation::OrrRegister { s, shift, .. } => sets_flags(s, in_it_block) ==> carry_shift_ok(shift),
        V7Operation::OrnRegister { s, shift, .. } => s == Some(true) ==> carry_shift_ok(shift),
        _ => !without_translation(op),
    }
}

/// The operations that `convert_data` translates.
spec fn family_data(op: V7Operation) -> bool {
    ||| op is AdcImmediate
    ||| op is AdcRegister
    ||| op is AddImmediate
    ||| op is AddRegister
    ||| op is AddSPImmediate
    ||| op is AddSPRegister
    ||| op is Adr
    ||| op is AndImmediate
    ||| op is AndRegister
    ||| op is AsrImmediate
    ||| op is AsrRegister
}

/// The operations that `convert_control` translates.
spec fn family_control(op: V7Operation) -> bool {
    ||| op is B
    ||| op is Bfc
    ||| op is Bfi
    ||| op is BicImmediate
    ||| op is BicRegister
    ||| op is Bkpt
    ||| op is Bl
    ||| op is Bx
    ||| op is CmnImmediate
    ||| op is CmpImmediate
    ||| op is CmpRegister
    ||| op is LslImmediate
    ||| op is LsrImmediate
    ||| op is MovImmediate
    ||| op is MovRegister
    ||| op is Mul
    ||| op is Nop
    ||| op is RsbImmediate
    ||| op is SubImmediate
    ||| op is SubRegister
    ||| op is SubSpMinusImmediate
    ||| op is Uxth
}

/// The operations that `convert_memory` translates.
spec fn family_memory(op: V7Operation) -> bool {
    ||| op is LdrImmediate
    ||| op is LdrLiteral
    ||| op is LdrRegister
    ||| op is LdrhImmediate
    ||| op is LdrbImmediate
    ||| op is StrImmediate
    ||| op is StrbImmediate
    ||| op is StrhImmediate
    ||| op is Pop
    ||| op is Push
    ||| op is Tb
}

/// The operations that `convert_logic` translates.
spec fn family_logic(op: V7Operation) -> bool {
    ||| op is EorImmediate
    ||| op is EorRegister
    ||| op is MvnImmediate
    ||| op is MvnRegister
    ||| op is OrnImmediate
    ||| op is OrnRegister
    ||| op is OrrImmediate
    ||| op is OrrRegister
    ||| op is TeqImmediate
    ||| op is TeqRegister
    ||| op is TstImmediate
    ||| op is TstRegister
    ||| op is CmnRegister
    ||| op is RsbRegister
    ||| op is SbcImmediate
    ||| op is SbcRegister
    ||| op is LslRegister
    ||| op is LsrRegister
    ||| op is RorImmediate
    ||| op is RorRegister
    ||| op is Rrx
    ||| op is Clz
    ||| op is Movt
    ||| op is Mla
    ||| op is Mls
    ||| op is Sdiv
    ||| op is Udiv
}

/// The operations that `convert_extend` translates.
spec fn family_extend(op: V7Operation) -> bool {
    ||| op is Sbfx
    ||| op is Ubfx
    ||| op is Sxtab
    ||| op is Sxtab16
    ||| op is Sxtah
    ||| op is Sxtb
    ||| op is Sxtb16
    ||| op is Sxth
    ||| op is Uxtab
    ||| op is Uxtab16
    ||| op is Uxtah
    ||| op is Uxtb
    ||| op is Uxtb16
    ||| op is Rev
    ||| op is Rev16
    ||| op is Revsh
    ||| op is Rbit
    ||| op is Pkh
}

/// The operations that `convert_load` translates.
spec fn family_load(op: V7Operation) -> bool {
    ||| op is LdrbLiteral
    ||| op is LdrbRegister
    ||| op is Ldrbt
    ||| op is LdrdImmediate
    ||| op is LdrdLiteral
    ||| op is LdrhLiteral
    ||| op is LdrhRegister
    ||| op is Ldrht
    ||| op is Ldrt
    ||| op is LdrsbImmediate
    ||| op is LdrsbLiteral
    ||| op is LdrsbRegister
    ||| op is Ldrsbt
    ||| op is LdrshImmediate
    ||| op is LdrshLiteral
    ||| op is LdrshRegister
    ||| op is Ldrsht
}

/// The operations that `convert_store` translates.
spec fn family_store(op: V7Operation) -> bool {
    ||| op is StrRegister
    ||| op is StrbRegister
    ||| op is StrhRegister
    ||| op is Strbt
    ||| op is Strht
    ||| op is Strt
    ||| op is StrdImmediate
    ||| op is Strex
    ||| op is Strexb
    ||| op is Strexh
    ||| op is Ldm
    ||| op is Ldmdb
    ||| op is Stm
    ||| op is Stmdb
    ||| op is SubSpMinusRegister
}

/// The operations that `convert_system` translates.
spec fn family_system(op: V7Operation) -> bool {
    ||| op is Blx
    ||| op is Cbz
    ||| op is Cps
    ||| op is Dbg
    ||| op is Dmb
    ||| op is Dsb
    ||| op is It
    ||| op is Udf
    ||| op is Mrs
    ||| op is Msr
    ||| op is Umull
    ||| op is Umlal
    ||| op is Umaal
}

/// The operations that `convert_parallel` translates.
spec fn family_parallel(op: V7Operation) -> bool {
    ||| op is Sadd16
    ||| op is Sadd8
    ||| op is Sasx
    ||| op is Shadd16
    ||| op is Shadd8
    ||| op is Shasx
    ||| op is Shsax
    ||| op is Shsub16
    ||| op is Shsub8
    ||| op is Uadd16
    ||| op is Uadd8
    ||| op is Uasx
    ||| op is Uhadd16
    ||| op is Uhadd8
    ||| op is Uhasx
    ||| op is Uhsax
    ||| op is Uhsub16
    ||| op is Uhsub8
    ||| op is Usax
    ||| op is Usub16
}


/// `o` is the register of general assembly named `name`.
pub open spec fn is_named(o: Operand, name: Seq<char>) -> bool {
    o matches Operand::Register(n) && n@ == name
}

/// `o` is the local named `name`.
pub open spec fn is_local(o: Operand, name: Seq<char>) -> bool {
    o matches Operand::Local(n) && n@ == name
}

/// `o` is the flag named `name`.
pub open spec fn is_flag(o: Operand, name: Seq<char>) -> bool {
    o matches Operand::Flag(n) && n@ == name
}

/// `o` is the `bits` bits of memory at the address in the local `name`.
pub open spec fn is_memory(o: Operand, name: Seq<char>, bits: u32) -> bool {
    o matches Operand::AddressInLocal(n, b) && n@ == name && b == bits
}

/// The register of general assembly that stands for a core register in
/// the ARMv7-M translation.
pub open spec fn v7_register_name(r: Register) -> Seq<char> {
    match r {
        Register::SP => "SP&"@,
        Register::PC => "PC+"@,
        _ => register_name(r),
    }
}

/// A 32 bit immediate.
pub open spec fn imm32(v: u32) -> Operand {
    Operand::Immediate(DataWord::Word32(v))
}

/// The `n` lowest bits set, all of them from 32 on.
pub open spec fn low_mask_of(n: u32) -> u32 {
    if n >= 32 {
        0xffff_ffff
    } else {
        (p(n as nat) - 1) as u32
    }
}

/// `d = s<hi:lo>`: a right shift by `lo` when it is not zero, then a mask of
/// `hi - lo + 1` bits.
pub open spec fn field_seq(d: Operand, s: Operand, hi: u32, lo: u32) -> Seq<Operation> {
    if lo > 0 {
        seq![
            Operation::Srl { destination: d, operand: s, shift: imm32(lo) },
            Operation::And { destination: d, operand1: d, operand2: imm32(low_mask_of((hi - lo + 1) as u32)) },
        ]
    } else {
        seq![Operation::And { destination: d, operand1: s, operand2: imm32(low_mask_of((hi + 1) as u32)) }]
    }
}


/// The address of a load: `oa = rn - imm`, or `rn + imm` when adding, and
/// `ad = oa` when indexed, `rn` otherwise.
pub open spec fn offset_seq(rn: Operand, imm: Operand, add_offset: bool, index: bool, oa: Operand, ad: Operand) -> Seq<Operation> {
    seq![Operation::Sub { destination: oa, operand1: rn, operand2: imm }] + (if add_offset {
        seq![Operation::Add { destination: oa, operand1: rn, operand2: imm }]
    } else {
        seq![]
    }) + seq![Operation::Move { destination: ad, source: rn }] + (if index {
        seq![Operation::Move { destination: ad, source: oa }]
    } else {
        seq![]
    })
}

/// The address of a store: `oa` and `ad` are cleared, then `oa = rn +/- imm`
/// and `ad = oa` when indexed, `rn` otherwise.
pub open spec fn store_seq(rn: Operand, imm: Operand, add_offset: bool, index: bool, oa: Operand, ad: Operand) -> Seq<Operation> {
    seq![
        Operation::Move { destination: oa, source: imm32(0) },
        if add_offset {
            Operation::Add { destination: oa, operand1: rn, operand2: imm }
        } else {
            Operation::Sub { destination: oa, operand1: rn, operand2: imm }
        },
        Operation::Move { destination: ad, source: imm32(0) },
        if index {
            Operation::Move { destination: ad, source: oa }
        } else {
            Operation::Move { destination: ad, source: rn }
        },
    ]
}

/// `base` is the word aligned `pc`, `address` is `base -/+ imm`.
pub open spec fn literal_seq(pc: Operand, base: Operand, address: Operand, imm: u32, add_offset: bool) -> Seq<Operation> {
    seq![
        Operation::UDiv { destination: base, operand1: pc, operand2: imm32(4) },
        Operation::Mul { destination: base, operand1: base, operand2: imm32(4) },
        Operation::Sub { destination: address, operand1: base, operand2: imm32(imm) },
    ] + if add_offset {
        seq![Operation::Add { destination: address, operand1: base, operand2: imm32(imm) }]
    } else {
        seq![]
    }
}

/// The rotation amount, modulo 32.
pub open spec fn rotation_of(rotation: Option<u32>) -> u32 {
    match rotation {
        Some(r) => r % 32,
        None => 0,
    }
}


/// A lane of a parallel addition or subtraction into `d`, through the
/// locals `a` and `b` (see [`lane`]).
pub open spec fn lane_seq(
    d: Operand,
    rn: Operand,
    rm: Operand,
    a: Operand,
    b: Operand,
    n: (u32, u32),
    m: (u32, u32),
    subtract: bool,
    width: u32,
) -> Seq<Operation> {
    field_seq(a, rn, n.0, n.1) + field_seq(b, rm, m.0, m.1) + (if width > 0 {
        seq![
            Operation::Resize { destination: a, operand: a, bits: width },
            Operation::Resize { destination: b, operand: b, bits: width },
        ]
    } else {
        seq![]
    }) + (if subtract {
        seq![Operation::Sub { destination: d, operand1: a, operand2: b }]
    } else {
        seq![Operation::Add { destination: d, operand1: a, operand2: b }]
    }) + (if width > 0 {
        seq![Operation::ZeroExtend { destination: d, operand: d, bits: width }]
    } else {
        seq![]
    })
}

/// `value<hi:lo>` placed at bit `at` and or:ed into `rd`, through the local
/// `part`.
pub open spec fn place_seq(rd: Operand, value: Operand, hi: u32, lo: u32, at: u32, part: Operand) -> Seq<Operation> {
    field_seq(part, value, hi, lo) + (if at > 0 {
        seq![Operation::Sl { destination: part, operand: part, shift: imm32(at) }]
    } else {
        seq![]
    }) + seq![Operation::Or { destination: rd, operand1: rd, operand2: part }]
}

/// The store of core register `r` to the word at the local `address`, and
/// the step of that address to the next word.
pub open spec fn store_pair(a: Operation, b: Operation, r: Register) -> bool {
    &&& a matches Operation::Move { destination: m, source: s } && is_memory(m, "address"@, 32) && is_named(
        s,
        v7_register_name(r),
    )
    &&& b matches Operation::Add { destination: d, operand1: o1, operand2: o2 } && is_local(d, "address"@) && o1
        == d && o2 == imm32(4)
}



/// The bits of the second operand that the low half word lane takes: the
/// high half word when the halves are exchanged.
pub open spec fn low_lane_bits(exchange: bool) -> (u32, u32) {
    if exchange { (31, 16) } else { (15, 0) }
}

/// The bits of the second operand that the high half word lane takes.
pub open spec fn high_lane_bits(exchange: bool) -> (u32, u32) {
    if exchange { (15, 0) } else { (31, 16) }
}

/// The top bit of a lane's result of `size` bits: one more when halving.
pub open spec fn top_bit(halving: bool, size: u32) -> u32 {
    if halving { size } else { (size - 1) as u32 }
}

/// The lowest bit of a lane's result: one when halving.
pub open spec fn low_bit(halving: bool) -> u32 {
    if halving { 1 } else { 0 }
}


/// The load of core register `r` from the word at the local `address`, and
/// the step of that address to the next word.
pub open spec fn load_pair(a: Operation, b: Operation, r: Register) -> bool {
    &&& a matches Operation::Move { destination: t, source: m } && is_named(t, v7_register_name(r)) && is_memory(
        m,
        "address"@,
        32,
    )
    &&& b matches Operation::Add { destination: d, operand1: o1, operand2: o2 } && is_local(d, "address"@) && o1
        == d && o2 == imm32(4)
}

/// `s` loads the registers of `regs` in order, the program counter left out.
pub open spec fn loads(s: Seq<Operation>, regs: Seq<Register>) -> bool
    decreases regs.len(),
{
    if regs.len() == 0 {
        s.len() == 0
    } else if regs.last() == Register::PC {
        loads(s, regs.drop_last())
    } else {
        &&& s.len() >= 2
        &&& load_pair(s[s.len() - 2], s[s.len() - 1], regs.last())
        &&& loads(s.subrange(0, s.len() - 2), regs.drop_last())
    }
}

/// `s` jumps to the word at the local `address` with its lowest bit
/// cleared, through the local `target`.
pub open spec fn jump_tail(s: Seq<Operation>) -> bool {
    &&& s.len() == 4
    &&& s[0] matches Operation::Move { destination: t, source: m } && is_local(t, "target"@) && is_memory(
        m,
        "address"@,
        32,
    ) && s[1] == (Operation::Srl { destination: t, operand: t, shift: imm32(1) }) && s[2] == (Operation::Sl {
        destination: t,
        operand: t,
        shift: imm32(1),
    }) && s[3] == (Operation::ConditionalJump { destination: t, condition: Condition::AL })
}


/// The flag updates of `result` and of the carry and overflow of `a` and
/// `b` (see [`flags_nzcv`]).
pub open spec fn nzcv_seq(result: Operand, a: Operand, b: Operand, sub: bool, carry: bool) -> Seq<Operation> {
    seq![
        Operation::SetNFlag(result),
        Operation::SetZFlag(result),
        Operation::SetCFlag { operand1: a, operand2: b, sub, carry },
        Operation::SetVFlag { operand1: a, operand2: b, sub, carry },
    ]
}

/// `target = rm` shifted as `shift` says (see [`shift_into`]): with
/// `carry_of`, the carry of shifting it is set first.
pub open spec fn shift_seq(target: Operand, rm: Operand, shift: Option<ImmShift>, carry_of: Option<Operand>) -> Seq<Operation> {
    match shift {
        Some(sh) => (match carry_of {
            Some(c) => if sh.shift_t is Lsl {
                seq![Operation::SetCFlagShiftLeft { operand: c, shift: imm32(sh.shift_n as u32) }]
            } else if sh.shift_t is Asr {
                seq![Operation::SetCFlagSra { operand: c, shift: imm32(sh.shift_n as u32) }]
            } else if sh.shift_t is Lsr {
                seq![Operation::SetCFlagSrl { operand: c, shift: imm32(sh.shift_n as u32) }]
            } else {
                seq![]
            },
            None => seq![],
        }) + seq![Operation::Shift { destination: target, operand: rm, shift_n: imm32(sh.shift_n as u32), shift_t: sh.shift_t }],
        None => seq![Operation::Move { destination: target, source: rm }],
    }
}

/// The register named for a destination that defaults to `rn`.
pub open spec fn rd_name(rd: Option<Register>, rn: Register) -> Seq<char> {
    v7_register_name(
        match rd {
            Some(d) => d,
            None => rn,
        },
    )
}

/// Whether an optional flag is present and set.
pub open spec fn option_set(s: Option<bool>) -> bool {
    s == Some(true)
}

/// ADC with an immediate: `result = rn + imm + C`, the flags of that
/// addition when they are set, then `rd = result`.
pub open spec fn adc_imm_seq(result: Operand, rn: Operand, rd: Operand, imm: u32, s: bool) -> Seq<Operation> {
    seq![Operation::Adc { destination: result, operand1: rn, operand2: imm32(imm) }] + (if s {
        nzcv_seq(result, rn, imm32(imm), false, true)
    } else {
        seq![]
    }) + seq![Operation::Move { destination: rd, source: result }]
}

/// ADC with a register: `rm` shifted into `shifted`, `result = rn + shifted
/// + C`, the flags of that addition when they are set, then `rd = result`.
pub open spec fn adc_reg_seq(
    result: Operand,
    shifted: Operand,
    rn: Operand,
    rd: Operand,
    rm: Operand,
    shift: Option<ImmShift>,
    s: bool,
) -> Seq<Operation> {
    shift_seq(shifted, rm, shift, None) + seq![Operation::Adc { destination: result, operand1: rn, operand2: shifted }]
        + (if s {
        nzcv_seq(result, rn, shifted, false, true)
    } else {
        seq![]
    }) + seq![Operation::Move { destination: rd, source: result }]
}

/// ADD with an immediate: `result = imm + rn`, `rd = result`, then, when
/// the flags are set, those of the result and of the addition, the carry
/// cleared first.
pub open spec fn add_imm_seq(result: Operand, rn: Operand, rd: Operand, c: Operand, imm: u32, s: bool) -> Seq<Operation> {
    seq![
        Operation::Add { destination: result, operand1: imm32(imm), operand2: rn },
        Operation::Move { destination: rd, source: result },
    ] + if s {
        seq![
            Operation::SetNFlag(result),
            Operation::SetZFlag(result),
            Operation::Move { destination: c, source: imm32(0) },
            Operation::SetCFlag { operand1: imm32(imm), operand2: rn, sub: false, carry: false },
            Operation::SetVFlag { operand1: imm32(imm), operand2: rn, sub: false, carry: false },
        ]
    } else {
        seq![]
    }
}

/// SUB with an immediate: `rn` kept in `old_rn`, `result = rn - imm`, the
/// flags of the subtraction when they are set, then `rd = result`.
pub open spec fn sub_imm_seq(result: Operand, old_rn: Operand, rn: Operand, rd: Operand, imm: u32, s: bool) -> Seq<Operation> {
    seq![
        Operation::Move { destination: old_rn, source: rn },
        Operation::Sub { destination: result, operand1: rn, operand2: imm32(imm) },
    ] + (if s {
        nzcv_seq(result, old_rn, imm32(imm), true, false)
    } else {
        seq![]
    }) + seq![Operation::Move { destination: rd, source: result }]
}

/// SUB with a register: `rm` shifted into `shifted`, `rn` kept in
/// `old_rn`, `result = rn - shifted`, the flags of the subtraction when they
/// are set, then `rd = result`.
pub open spec fn sub_reg_seq(
    result: Operand,
    shifted: Operand,
    old_rn: Operand,
    rn: Operand,
    rd: Operand,
    rm: Operand,
    shift: Option<ImmShift>,
    s: bool,
) -> Seq<Operation> {
    shift_seq(shifted, rm, shift, None) + seq![
        Operation::Move { destination: old_rn, source: rn },
        Operation::Sub { destination: result, operand1: rn, operand2: shifted },
    ] + (if s {
        nzcv_seq(result, old_rn, shifted, true, false)
    } else {
        seq![]
    }) + seq![Operation::Move { destination: rd, source: result }]
}

/// MOV with an immediate: `result = imm`, `rd = result`, and when the flags
/// are set those of the result and the carry the encoding gives.
pub open spec fn mov_imm_seq(result: Operand, rd: Operand, c: Operand, imm: u32, s: bool, carry: Option<bool>) -> Seq<Operation> {
    seq![
        Operation::Move { destination: result, source: imm32(imm) },
        Operation::Move { destination: rd, source: result },
    ] + if s {
        seq![Operation::SetNFlag(result), Operation::SetZFlag(result)] + match carry {
            Some(b) => seq![Operation::Move { destination: c, source: imm32(if b { 1 } else { 0 }) }],
            None => seq![],
        }
    } else {
        seq![]
    }
}

/// MOV with a register: into the program counter a jump to `rm` with its
/// lowest bit cleared, through `dest`; else `rd = rm` and, when the flags
/// are set, those of `rd`.
pub open spec fn mov_reg_seq(dest: Operand, rd: Operand, rm: Operand, rd_reg: Register, s: bool) -> Seq<Operation> {
    if rd_reg == Register::PC {
        seq![
            Operation::Move { destination: dest, source: rm },
            Operation::Srl { destination: dest, operand: dest, shift: imm32(1) },
            Operation::Sl { destination: dest, operand: dest, shift: imm32(1) },
            Operation::ConditionalJump { destination: dest, condition: Condition::AL },
        ]
    } else {
        seq![Operation::Move { destination: rd, source: rm }] + if s {
            seq![Operation::SetNFlag(rd), Operation::SetZFlag(rd)]
        } else {
            seq![]
        }
    }
}

/// The carry that an immediate's encoding gives, written to `c`.
pub open spec fn carry_seq(c: Operand, carry: Option<bool>) -> Seq<Operation> {
    match carry {
        Some(b) => seq![Operation::Move { destination: c, source: imm32(if b { 1 } else { 0 }) }],
        None => seq![],
    }
}

/// AND with an immediate: `result = rn & imm`, the flags of the result and
/// the carry of the immediate when they are set, then `rd = result`.
pub open spec fn and_imm_seq(result: Operand, rn: Operand, rd: Operand, c: Operand, imm: u32, s: bool, carry: Option<bool>) -> Seq<Operation> {
    seq![Operation::And { destination: result, operand1: rn, operand2: imm32(imm) }] + (if s {
        seq![Operation::SetNFlag(result), Operation::SetZFlag(result)] + carry_seq(c, carry)
    } else {
        seq![]
    }) + seq![Operation::Move { destination: rd, source: result }]
}

/// ORR or EOR with an immediate, as `first` computes it into `result`:
/// `rd = result`, then the flags of the result and the carry of the
/// immediate when they are set.
pub open spec fn bitwise_imm_seq(first: Operation, result: Operand, rd: Operand, c: Operand, s: bool, carry: Option<bool>) -> Seq<Operation> {
    seq![first, Operation::Move { destination: rd, source: result }] + if s {
        seq![Operation::SetNFlag(result), Operation::SetZFlag(result)] + carry_seq(c, carry)
    } else {
        seq![]
    }
}

/// What a word load does after its address is computed: `data` read from
/// `m`, `rn` written back from `wb` when `w` says so, then `rt = data`, or a
/// jump to `data` with its lowest bit cleared when `rt` is the program
/// counter.
pub open spec fn ldr_tail(data: Operand, m: Operand, rn: Operand, wb: Operand, rt_o: Operand, rt: Register, w: bool) -> Seq<Operation> {
    seq![Operation::Move { destination: data, source: m }] + (if w {
        seq![Operation::Move { destination: rn, source: wb }]
    } else {
        seq![]
    }) + if rt == Register::PC {
        seq![
            Operation::Srl { destination: data, operand: data, shift: imm32(1) },
            Operation::Sl { destination: data, operand: data, shift: imm32(1) },
            Operation::ConditionalJump { destination: data, condition: Condition::AL },
        ]
    } else {
        seq![Operation::Move { destination: rt_o, source: data }]
    }
}

/// What a word store does after its address is computed: `rt` written to
/// `m`, then `rn` written back from `wb` when `w` says so.
pub open spec fn str_tail(m: Operand, rn: Operand, wb: Operand, rt_o: Operand, w: bool) -> Seq<Operation> {
    seq![Operation::Move { destination: m, source: rt_o }] + if w {
        seq![Operation::Move { destination: rn, source: wb }]
    } else {
        seq![]
    }
}

/// `x = x<31:1> << 1`: clears the lowest bit.
pub open spec fn clear_seq(x: Operand) -> Seq<Operation> {
    seq![
        Operation::Srl { destination: x, operand: x, shift: imm32(1) },
        Operation::Sl { destination: x, operand: x, shift: imm32(1) },
    ]
}

/// BL: the link register gets the address of the next instruction with its
/// lowest bit set, then the program counter the target `PC + 4 + imm` with
/// its lowest bit cleared.
pub open spec fn bl_seq(next: Operand, pc_plus: Operand, lr: Operand, pc: Operand, imm: u32) -> Seq<Operation> {
    seq![Operation::Move { destination: next, source: pc_plus }] + clear_seq(next) + seq![
        Operation::Or { destination: lr, operand1: next, operand2: imm32(1) },
        Operation::Add { destination: next, operand1: pc_plus, operand2: imm32(imm) },
    ] + clear_seq(next) + seq![Operation::Move { destination: pc, source: next }]
}

/// BX: the program counter gets `rm` with its lowest bit cleared.
pub open spec fn bx_seq(next: Operand, rm: Operand, pc: Operand) -> Seq<Operation> {
    seq![Operation::Move { destination: next, source: rm }] + clear_seq(next) + seq![
        Operation::Move { destination: pc, source: next },
    ]
}

/// PUSH: `address = SP - 4 * n`, each register stored there in turn, the
/// address advanced a word each time, then `SP = SP - 4 * n` (the stack
/// pointer read word aligned).
pub open spec fn push_ok(registers: Seq<Register>, ops: Seq<Operation>) -> bool {
    let n = registers.len() as int;
    let bytes = imm32((4 * n) as u32);
    &&& ops.len() == 2 + 2 * n
    &&& ops[0] matches Operation::Sub { destination: a, operand1: sp, operand2: b } && is_local(a, "address"@)
        && is_named(sp, "SP"@) && b == bytes
    &&& forall|i: int| 0 <= i < n ==> store_pair(ops[1 + 2 * i], ops[2 + 2 * i], #[trigger] registers[i])
    &&& ops[1 + 2 * n] matches Operation::Sub { destination: d, operand1: sp, operand2: b } && is_named(d, "SP"@)
        && is_named(sp, "SP&"@) && b == bytes
}

/// CMP with a register: `rm` shifted into `shifted`, `result = rn -
/// shifted`, and the flags of the subtraction.
pub open spec fn compare_reg_seq(result: Operand, shifted: Operand, rn: Operand, rm: Operand, shift: Option<ImmShift>) -> Seq<Operation> {
    shift_seq(shifted, rm, shift, None) + seq![
        Operation::Sub { destination: result, operand1: rn, operand2: shifted },
    ] + nzcv_seq(result, rn, shifted, true, false)
}

/// CMN with an immediate: `result = rn + imm` and the flags of the addition.
pub open spec fn cmn_imm_seq(result: Operand, rn: Operand, imm: u32) -> Seq<Operation> {
    seq![Operation::Add { destination: result, operand1: rn, operand2: imm32(imm) }] + nzcv_seq(
        result,
        rn,
        imm32(imm),
        false,
        false,
    )
}

/// `d = s` rotated right by `rotation` (see [`rotate`]), through the local
/// `h` when it rotates.
pub open spec fn rotate_seq(d: Operand, s: Operand, h: Operand, rotation: Option<u32>) -> Seq<Operation> {
    if rotation_of(rotation) == 0 {
        seq![Operation::Move { destination: d, source: s }]
    } else {
        seq![
            Operation::Sl { destination: h, operand: s, shift: imm32((32 - rotation_of(rotation)) as u32) },
            Operation::Srl { destination: d, operand: s, shift: imm32(rotation_of(rotation)) },
            Operation::Or { destination: d, operand1: d, operand2: h },
        ]
    }
}

/// The locals of a rotation: `rotated`, and `rotated_out` when it rotates.
pub open spec fn rotation_locals(rotated: Operand, h: Operand, rotation: Option<u32>) -> bool {
    &&& is_local(rotated, "rotated"@)
    &&& rotation_of(rotation) != 0 ==> is_local(h, "rotated_out"@)
}

/// A byte reversal of `rm` into `rd`: the bytes masked out into the locals
/// `b0`..`b3` by `masks`, each shifted by `shifts` (left where `left`
/// says so), then or:ed together into `rd`, cleared first.
pub open spec fn reverse_seq(rd: Operand, rm: Operand, b: Seq<Operand>, masks: Seq<u32>, shifts: Seq<u32>, left: Seq<bool>) -> Seq<Operation>
    recommends
        b.len() == masks.len() == shifts.len() == left.len(),
{
    Seq::new(b.len(), |i: int| Operation::And { destination: b[i], operand1: rm, operand2: imm32(masks[i]) }) + Seq::new(
        b.len(),
        |i: int|
            if left[i] {
                Operation::Sl { destination: b[i], operand: b[i], shift: imm32(shifts[i]) }
            } else {
                Operation::Srl { destination: b[i], operand: b[i], shift: imm32(shifts[i]) }
            },
    ) + seq![Operation::Move { destination: rd, source: imm32(0) }] + Seq::new(
        b.len(),
        |i: int| Operation::Or { destination: rd, operand1: rd, operand2: b[i] },
    )
}

/// The locals `int1`, `int2`, ... of a byte reversal.
pub open spec fn reverse_locals(b: Seq<Operand>) -> bool {
    &&& b.len() == 4
    &&& is_local(b[0], "int1"@)
    &&& is_local(b[1], "int2"@)
    &&& is_local(b[2], "int3"@)
    &&& is_local(b[3], "int4"@)
}

/// An optional immediate, zero when it is left out.
pub open spec fn imm_or_zero(imm: Option<u32>) -> u32 {
    match imm {
        Some(i) => i,
        None => 0,
    }
}

/// The write back of the offset address `wb` to `rn`, when `w` says so.
pub open spec fn write_back(rn: Operand, wb: Operand, w: bool) -> Seq<Operation> {
    if w {
        seq![Operation::Move { destination: rn, source: wb }]
    } else {
        seq![]
    }
}

/// The shift of an immediate shift encoding (see [`imm_shift`]).
pub open spec fn imm_shift_of(shift_t: Shift, shift_n: u8) -> ImmShift {
    match (shift_t, shift_n) {
        (Shift::Lsr, 0) => ImmShift { shift_t: Shift::Lsr, shift_n: 32 },
        (Shift::Asr, 0) => ImmShift { shift_t: Shift::Lsr, shift_n: 32 },
        (Shift::Ror, 0) => ImmShift { shift_t: Shift::Rrx, shift_n: 1 },
        _ => ImmShift { shift_t, shift_n },
    }
}

/// LSL or LSR with an immediate: `rd = rm` shifted, and when the flags are
/// set the carry of the shift, then those of `rd`.
pub open spec fn shift_imm_seq(rd: Operand, rm: Operand, shift_t: Shift, imm: u8, s: bool) -> Seq<Operation> {
    shift_seq(rd, rm, Some(imm_shift_of(shift_t, imm)), if s { Some(rm) } else { None }) + if s {
        seq![Operation::SetNFlag(rd), Operation::SetZFlag(rd)]
    } else {
        seq![]
    }
}

/// ASR with an immediate: `result = rm >> imm` arithmetically, the flags
/// of the result and the carry of the shift when they are set, then `rd =
/// result`.
pub open spec fn asr_imm_seq(result: Operand, rd: Operand, rm: Operand, imm: u32, s: bool) -> Seq<Operation> {
    seq![Operation::Sra { destination: result, operand: rm, shift: imm32(imm) }] + (if s {
        seq![
            Operation::SetZFlag(result),
            Operation::SetNFlag(result),
            Operation::SetCFlagSra { operand: rm, shift: imm32(imm) },
        ]
    } else {
        seq![]
    }) + seq![Operation::Move { destination: rd, source: result }]
}

/// CBZ or CBNZ: `Z` kept in `old_z`, set from `rn`, a jump to `PC + 4 +
/// imm` with its lowest bit cleared on EQ (CBZ) or NE (CBNZ), then `Z`
/// restored.
pub open spec fn cbz_seq(old_z: Operand, z1: Operand, z2: Operand, rn: Operand, dest: Operand, pc: Operand, imm: u32, non: bool) -> Seq<Operation> {
    seq![
        Operation::Move { destination: old_z, source: z1 },
        Operation::SetZFlag(rn),
        Operation::Add { destination: dest, operand1: pc, operand2: imm32(imm) },
    ] + clear_seq(dest) + seq![
        Operation::ConditionalJump { destination: dest, condition: if non { Condition::NE } else { Condition::EQ } },
        Operation::Move { destination: z2, source: old_z },
    ]
}

/// STM or STMDB: the local `address` starts at `rn` (STM) or `4 * n`
/// below it (STMDB), each register is stored there in turn with the
/// address advanced a word each time, and with write back `rn` moves up
/// (STM) or down (STMDB) by `4 * n`.
pub open spec fn store_multiple_ok(registers: Seq<Register>, rn: Operand, w: bool, below: bool, ops: Seq<Operation>) -> bool {
    let n = registers.len() as int;
    let bytes = imm32((4 * n) as u32);
    &&& ops.len() == 1 + 2 * n + if w { 1int } else { 0int }
    &&& if below {
        ops[0] matches Operation::Sub { destination: a, operand1: b, operand2: c } && is_local(a, "address"@) && b
            == rn && c == bytes
    } else {
        ops[0] matches Operation::Move { destination: a, source: b } && is_local(a, "address"@) && b == rn
    }
    &&& forall|i: int| 0 <= i < n ==> store_pair(ops[1 + 2 * i], ops[2 + 2 * i], #[trigger] registers[i])
    &&& w ==> ops[1 + 2 * n] == if below {
        Operation::Sub { destination: rn, operand1: rn, operand2: bytes }
    } else {
        Operation::Add { destination: rn, operand1: rn, operand2: bytes }
    }
}

/// The number of steps of an optional shift, zero without one.
pub open spec fn steps_of(shift: Option<ImmShift>) -> u32 {
    match shift {
        Some(sh) => sh.shift_n as u32,
        None => 0,
    }
}

/// A store by register of `bits` bits: `offset = rm << steps`, `address =
/// rn + offset`, then `rt` written to `m`.
pub open spec fn store_register_seq(offset: Operand, address: Operand, m: Operand, rn: Operand, rm: Operand, rt: Operand, steps: u32) -> Seq<Operation> {
    seq![
        Operation::Sl { destination: offset, operand: rm, shift: imm32(steps) },
        Operation::Add { destination: address, operand1: rn, operand2: offset },
        Operation::Move { destination: m, source: rt },
    ]
}

/// ADD to the stack pointer: `result = SP + imm`, the flags of the addition
/// when they are set, then `rd = result`.
pub open spec fn add_sp_seq(result: Operand, sp: Operand, rd: Operand, imm: u32, s: bool) -> Seq<Operation> {
    seq![Operation::Add { destination: result, operand1: sp, operand2: imm32(imm) }] + (if s {
        nzcv_seq(result, sp, imm32(imm), false, false)
    } else {
        seq![]
    }) + seq![Operation::Move { destination: rd, source: result }]
}

/// ADR: `aligned` is `PC + 4` rounded down to a word, `result = aligned -
/// imm`, or `aligned + imm` when adding, then `rd = result`.
pub open spec fn adr_seq(aligned: Operand, pc: Operand, result: Operand, rd: Operand, imm: u32, add: bool) -> Seq<Operation> {
    seq![
        Operation::UDiv { destination: aligned, operand1: pc, operand2: imm32(4) },
        Operation::Mul { destination: aligned, operand1: aligned, operand2: imm32(4) },
        Operation::Sub { destination: result, operand1: aligned, operand2: imm32(imm) },
    ] + (if add {
        seq![Operation::Add { destination: result, operand1: aligned, operand2: imm32(imm) }]
    } else {
        seq![]
    }) + seq![Operation::Move { destination: rd, source: result }]
}

/// ORR with a register: `rm` shifted into `shifted` (its carry set first
/// when the flags are set), `rd = rn | shifted`, then the flags of `rd`
/// when they are set.
pub open spec fn orr_reg_seq(shifted: Operand, rd: Operand, rn: Operand, rm: Operand, shift: Option<ImmShift>, s: bool) -> Seq<Operation> {
    shift_seq(shifted, rm, shift, if s { Some(rm) } else { None }) + seq![
        Operation::Or { destination: rd, operand1: rn, operand2: shifted },
    ] + if s {
        seq![Operation::SetNFlag(rd), Operation::SetZFlag(rd)]
    } else {
        seq![]
    }
}

/// AND or EOR with a register: `rm` shifted into `shifted` (its carry set
/// first when `carry` says so), `first` computes `result`, the flags of the
/// result when they are set, then `rd = result`.
pub open spec fn logic_reg_seq(first: Operation, result: Operand, shifted: Operand, rd: Operand, rm: Operand, shift: Option<ImmShift>, carry: bool, s: bool) -> Seq<Operation> {
    shift_seq(shifted, rm, shift, if carry { Some(rm) } else { None }) + seq![first] + (if s {
        seq![Operation::SetNFlag(result), Operation::SetZFlag(result)]
    } else {
        seq![]
    }) + seq![Operation::Move { destination: rd, source: result }]
}

/// Whether an ADD with a register writes the program counter.
pub open spec fn add_jumps(rd: Option<Register>, rn: Register) -> bool {
    match rd {
        Some(Register::PC) => true,
        None => rn == Register::PC,
        _ => false,
    }
}

/// ADD with a register: `rm` shifted into `shifted`, `result = shifted +
/// rn`; into the program counter it jumps to the result with its lowest bit
/// cleared, else the flags when they are set (the carry cleared first) and
/// `rd = result`.
pub open spec fn add_reg_seq(
    result: Operand,
    shifted: Operand,
    rn: Operand,
    rd: Operand,
    rm: Operand,
    c: Operand,
    shift: Option<ImmShift>,
    s: bool,
    jump: bool,
) -> Seq<Operation> {
    shift_seq(shifted, rm, shift, None) + seq![Operation::Add { destination: result, operand1: shifted, operand2: rn }]
        + if jump {
        seq![
            Operation::Srl { destination: result, operand: result, shift: imm32(1) },
            Operation::Sl { destination: result, operand: result, shift: imm32(1) },
            Operation::ConditionalJump { destination: result, condition: Condition::AL },
        ]
    } else {
        (if s {
            seq![
                Operation::SetNFlag(result),
                Operation::SetZFlag(result),
                Operation::Move { destination: c, source: imm32(0) },
                Operation::SetCFlag { operand1: shifted, operand2: rn, sub: false, carry: false },
                Operation::SetVFlag { operand1: shifted, operand2: rn, sub: false, carry: false },
            ]
        } else {
            seq![]
        }) + seq![Operation::Move { destination: rd, source: result }]
    }
}

/// B: `target = PC+ + imm` with its lowest bit cleared, a jump there under
/// the condition.
pub open spec fn b_seq(target: Operand, pc: Operand, imm: u32, condition: ArmCondition) -> Seq<Operation> {
    seq![
        Operation::Add { destination: target, operand1: pc, operand2: imm32(imm) },
        Operation::Srl { destination: target, operand: target, shift: imm32(1) },
        Operation::Sl { destination: target, operand: target, shift: imm32(1) },
        Operation::ConditionalJump { destination: target, condition: condition_of(condition) },
    ]
}

/// The `msb - lsb + 1` lowest bits set.
pub open spec fn width_mask(lsb: u32, msb: u32) -> u32 {
    if msb - lsb + 1 >= 32 {
        0xffff_ffff
    } else {
        (p((msb - lsb + 1) as nat) - 1) as u32
    }
}

/// BFI: the mask `(msb - lsb - 1) << lsb` inverted clears `rd`, then the
/// `msb - lsb + 1` low bits of `rn` shifted to `lsb` are or:ed in.
pub open spec fn bfi_seq(mask: Operand, intermediate: Operand, rd: Operand, rn: Operand, lsb: u32, msb: u32) -> Seq<Operation> {
    seq![
        Operation::Move { destination: mask, source: imm32((((msb - lsb - 1) as u32) << lsb) as u32) },
        Operation::Not { destination: mask, operand: mask },
        Operation::And { destination: rd, operand1: rd, operand2: mask },
        Operation::And { destination: intermediate, operand1: rn, operand2: imm32(width_mask(lsb, msb)) },
        Operation::Sl { destination: intermediate, operand: intermediate, shift: imm32(lsb) },
        Operation::Or { destination: rd, operand1: rd, operand2: intermediate },
    ]
}

/// POP: `address = SP&`, `SP = SP + 4 * count`, then the loads of the
/// registers from the lowest address up, and a jump to the word after them
/// when the program counter is among them.
pub open spec fn pop_ok(registers: Seq<Register>, ops: Seq<Operation>) -> bool {
    &&& ops.len() >= 2
    &&& ops[0] matches Operation::Move { destination: a, source: sp } && is_local(a, "address"@) && is_named(sp, "SP&"@)
    &&& ops[1] matches Operation::Add { destination: d, operand1: o1, operand2: o2 } && is_named(d, "SP"@) && o1 == d
        && o2 == imm32((4 * registers.len()) as u32)
    &&& exists|k: int|
        2 <= k <= ops.len() && #[trigger] loads(ops.subrange(2, k), registers) && (registers.contains(Register::PC)
            ==> jump_tail(ops.subrange(k, ops.len() as int))) && (!registers.contains(Register::PC) ==> k
            == ops.len())
}

/// The operations of the translation of `op`, for the operations this
/// states: ADC, ADD, ADD to the stack pointer with an immediate, ADR, AND,
/// ORR and EOR, ASR, LSL and LSR with an immediate, B,
/// BFC, BFI, BL, BX, CBZ and CBNZ, CMN with an immediate, CMP, IT, LDR, LDRB
/// and LDRH with an immediate, MLA, MLS, MOV, MUL, NOP, POP, PUSH, REV,
/// REV16, SDIV, STM, STMDB, STR and STRB with an immediate or a register,
/// STRH with an immediate, SUB, SXTB, SXTH, UBFX, UDIV, UXTB and UXTH (the
/// others are not described here).
pub open spec fn translation_of(op: V7Operation, in_it_block: bool, ops: Seq<Operation>) -> bool {
    match op {
        V7Operation::AdcImmediate { s, rd, rn, imm } => exists|result: Operand, rn_o: Operand, rd_o: Operand|
            #![trigger adc_imm_seq(result, rn_o, rd_o, imm, option_set(s))]
            is_local(result, "result"@) && is_named(rn_o, v7_register_name(rn)) && is_named(rd_o, rd_name(rd, rn))
                && ops == adc_imm_seq(result, rn_o, rd_o, imm, option_set(s)),
        V7Operation::AdcRegister { s, rd, rn, rm, shift } => exists|
            result: Operand,
            shifted: Operand,
            rn_o: Operand,
            rd_o: Operand,
            rm_o: Operand,
        |
            #![trigger adc_reg_seq(result, shifted, rn_o, rd_o, rm_o, shift, sets_flags(s, in_it_block))]
            is_local(result, "result"@) && is_local(shifted, "shifted"@) && is_named(rn_o, v7_register_name(rn))
                && is_named(rd_o, rd_name(rd, rn)) && is_named(rm_o, v7_register_name(rm)) && ops == adc_reg_seq(
                result,
                shifted,
                rn_o,
                rd_o,
                rm_o,
                shift,
                sets_flags(s, in_it_block),
            ),
        V7Operation::AddImmediate { s, rd, rn, imm } => exists|result: Operand, rn_o: Operand, rd_o: Operand, c: Operand|
            #![trigger add_imm_seq(result, rn_o, rd_o, c, imm, sets_flags(s, in_it_block))]
            is_local(result, "result"@) && is_named(rn_o, v7_register_name(rn)) && is_named(rd_o, rd_name(rd, rn))
                && is_flag(c, "C"@) && ops == add_imm_seq(result, rn_o, rd_o, c, imm, sets_flags(s, in_it_block)),
        V7Operation::AddRegister { s, rd, rn, rm, shift } => exists|
            result: Operand,
            shifted: Operand,
            rn_o: Operand,
            rd_o: Operand,
            rm_o: Operand,
            c: Operand,
        |
            #![trigger add_reg_seq(result, shifted, rn_o, rd_o, rm_o, c, shift, sets_flags(s, in_it_block), add_jumps(rd, rn))]
            is_local(result, "result"@) && is_local(shifted, "shifted"@) && is_named(rn_o, v7_register_name(rn))
                && is_named(rd_o, rd_name(rd, rn)) && is_named(rm_o, v7_register_name(rm)) && is_flag(c, "C"@) && ops
                == add_reg_seq(result, shifted, rn_o, rd_o, rm_o, c, shift, sets_flags(s, in_it_block), add_jumps(rd, rn)),
        V7Operation::B { condition, imm } => exists|target: Operand, pc: Operand|
            #![trigger b_seq(target, pc, imm, condition)]
            is_local(target, "target"@) && is_named(pc, "PC+"@) && ops == b_seq(target, pc, imm, condition),
        V7Operation::Bfc { rd, lsb, msb } => exists|rd_o: Operand|
            #![trigger is_named(rd_o, v7_register_name(rd))]
            is_named(rd_o, v7_register_name(rd)) && ops == seq![
                Operation::And {
                    destination: rd_o,
                    operand1: rd_o,
                    operand2: imm32(!((p((msb - lsb + 1) as nat) - 1) as u32)),
                },
            ],
        V7Operation::Bfi { rd, rn, lsb, msb } => exists|mask: Operand, intermediate: Operand, rd_o: Operand, rn_o: Operand|
            #![trigger bfi_seq(mask, intermediate, rd_o, rn_o, lsb, msb)]
            is_local(mask, "mask"@) && is_local(intermediate, "intermediate"@) && is_named(rd_o, v7_register_name(rd))
                && is_named(rn_o, v7_register_name(rn)) && ops == bfi_seq(mask, intermediate, rd_o, rn_o, lsb, msb),
        V7Operation::Pop { registers } => pop_ok(registers@, ops),
        V7Operation::Push { registers } => push_ok(registers@, ops),
        V7Operation::Stm { w, rn, registers } => exists|rn_o: Operand|
            #![trigger store_multiple_ok(registers@, rn_o, option_set(w), false, ops)]
            is_named(rn_o, v7_register_name(rn)) && store_multiple_ok(registers@, rn_o, option_set(w), false, ops),
        V7Operation::Stmdb { w, rn, registers } => exists|rn_o: Operand|
            #![trigger store_multiple_ok(registers@, rn_o, option_set(w), true, ops)]
            is_named(rn_o, v7_register_name(rn)) && store_multiple_ok(registers@, rn_o, option_set(w), true, ops),
        V7Operation::SubImmediate { s, rd, rn, imm } => exists|result: Operand, old_rn: Operand, rn_o: Operand, rd_o: Operand|
            #![trigger sub_imm_seq(result, old_rn, rn_o, rd_o, imm, sets_flags(s, in_it_block))]
            is_local(result, "result"@) && is_local(old_rn, "old_rn"@) && is_named(rn_o, v7_register_name(rn))
                && is_named(rd_o, rd_name(rd, rn)) && ops == sub_imm_seq(result, old_rn, rn_o, rd_o, imm, sets_flags(s, in_it_block)),
        V7Operation::SubRegister { s, rd, rn, rm, shift } => exists|
            result: Operand,
            shifted: Operand,
            old_rn: Operand,
            rn_o: Operand,
            rd_o: Operand,
            rm_o: Operand,
        |
            #![trigger sub_reg_seq(result, shifted, old_rn, rn_o, rd_o, rm_o, shift, sets_flags(s, in_it_block))]
            is_local(result, "result"@) && is_local(shifted, "shifted"@) && is_local(old_rn, "old_rn"@) && is_named(
                rn_o,
                v7_register_name(rn),
            ) && is_named(rd_o, rd_name(rd, rn)) && is_named(rm_o, v7_register_name(rm)) && ops == sub_reg_seq(
                result,
                shifted,
                old_rn,
                rn_o,
                rd_o,
                rm_o,
                shift,
                sets_flags(s, in_it_block),
            ),
        V7Operation::AndImmediate { s, rd, rn, imm, carry } => exists|result: Operand, rn_o: Operand, rd_o: Operand, c: Operand|
            #![trigger and_imm_seq(result, rn_o, rd_o, c, imm, option_set(s), carry)]
            is_local(result, "result"@) && is_named(rn_o, v7_register_name(rn)) && is_named(rd_o, rd_name(rd, rn))
                && is_flag(c, "C"@) && ops == and_imm_seq(result, rn_o, rd_o, c, imm, option_set(s), carry),
        V7Operation::OrrImmediate { s, rd, rn, carry, imm } => exists|result: Operand, rn_o: Operand, rd_o: Operand, c: Operand|
            #![trigger bitwise_imm_seq(Operation::Or { destination: result, operand1: rn_o, operand2: imm32(imm) }, result, rd_o, c, option_set(s), carry)]
            is_local(result, "result"@) && is_named(rn_o, v7_register_name(rn)) && is_named(rd_o, rd_name(rd, rn))
                && is_flag(c, "C"@) && ops == bitwise_imm_seq(
                Operation::Or { destination: result, operand1: rn_o, operand2: imm32(imm) },
                result,
                rd_o,
                c,
                option_set(s),
                carry,
            ),
        V7Operation::MvnImmediate { s, rd, carry, imm } => exists|result: Operand, rd_o: Operand, c: Operand|
            #![trigger bitwise_imm_seq(Operation::Not { destination: result, operand: imm32(imm) }, result, rd_o, c, option_set(s), carry)]
            is_local(result, "result"@) && is_named(rd_o, v7_register_name(rd)) && is_flag(c, "C"@) && ops
                == bitwise_imm_seq(
                Operation::Not { destination: result, operand: imm32(imm) },
                result,
                rd_o,
                c,
                option_set(s),
                carry,
            ),
        V7Operation::EorImmediate { s, rd, rn, imm, carry } => exists|result: Operand, rn_o: Operand, rd_o: Operand, c: Operand|
            #![trigger bitwise_imm_seq(Operation::Xor { destination: result, operand1: rn_o, operand2: imm32(imm) }, result, rd_o, c, option_set(s), carry)]
            is_local(result, "result"@) && is_named(rn_o, v7_register_name(rn)) && is_named(rd_o, rd_name(rd, rn))
                && is_flag(c, "C"@) && ops == bitwise_imm_seq(
                Operation::Xor { destination: result, operand1: rn_o, operand2: imm32(imm) },
                result,
                rd_o,
                c,
                option_set(s),
                carry,
            ),
        V7Operation::LdrImmediate { w, add, index, rt, rn, imm } => exists|
            oa: Operand,
            ad: Operand,
            wb: Operand,
            data: Operand,
            m: Operand,
            rn_o: Operand,
            rt_o: Operand,
        |
            #![trigger offset_seq(rn_o, imm32(imm), add, index, oa, ad), ldr_tail(data, m, rn_o, wb, rt_o, rt, option_set(w))]
            is_local(oa, "offset_addr"@) && is_local(ad, "address"@) && is_local(wb, "offset_addr"@) && is_local(
                data,
                "data"@,
            ) && is_memory(m, "address"@, 32) && is_named(rn_o, v7_register_name(rn)) && is_named(
                rt_o,
                v7_register_name(rt),
            ) && ops == offset_seq(rn_o, imm32(imm), add, index, oa, ad) + ldr_tail(data, m, rn_o, wb, rt_o, rt, option_set(w)),
        V7Operation::StrImmediate { w, index, add, rt, rn, imm } => exists|
            oa: Operand,
            ad: Operand,
            wb: Operand,
            m: Operand,
            rn_o: Operand,
            rt_o: Operand,
        |
            #![trigger store_seq(rn_o, imm32(imm), add, option_set(index), oa, ad), str_tail(m, rn_o, wb, rt_o, option_set(w))]
            is_local(oa, "offset_addr"@) && is_local(ad, "address"@) && is_local(wb, "offset_addr"@) && is_memory(
                m,
                "address"@,
                32,
            ) && is_named(rn_o, v7_register_name(rn)) && is_named(rt_o, v7_register_name(rt)) && ops == store_seq(
                rn_o,
                imm32(imm),
                add,
                option_set(index),
                oa,
                ad,
            ) + str_tail(m, rn_o, wb, rt_o, option_set(w)),
        V7Operation::Bl { imm } => exists|next: Operand, pc_plus: Operand, lr: Operand, pc: Operand|
            #![trigger bl_seq(next, pc_plus, lr, pc, imm)]
            is_local(next, "next_addr"@) && is_named(pc_plus, "PC+"@) && is_named(lr, "LR"@) && is_named(pc, "PC"@)
                && ops == bl_seq(next, pc_plus, lr, pc, imm),
        V7Operation::Bx { rm } => exists|next: Operand, rm_o: Operand, pc: Operand|
            #![trigger bx_seq(next, rm_o, pc)]
            is_local(next, "next_addr"@) && is_named(rm_o, v7_register_name(rm)) && is_named(pc, "PC"@) && ops
                == bx_seq(next, rm_o, pc),
        V7Operation::Mul { s, rd, rn, rm } => exists|rd_o: Operand, rn_o: Operand, rm_o: Operand|
            #![trigger is_named(rd_o, rd_name(rd, rn)), is_named(rn_o, v7_register_name(rn)), is_named(rm_o, v7_register_name(rm))]
            is_named(rd_o, rd_name(rd, rn)) && is_named(rn_o, v7_register_name(rn)) && is_named(rm_o, v7_register_name(rm))
                && ops == seq![Operation::Mul { destination: rd_o, operand1: rn_o, operand2: rm_o }] + if sets_flags(
                s,
                in_it_block,
            ) {
                seq![Operation::SetZFlag(rd_o), Operation::SetNFlag(rd_o)]
            } else {
                seq![]
            },
        V7Operation::Nop => ops == seq![Operation::Nop],
        V7Operation::CmpRegister { rn, rm, shift } => exists|result: Operand, shifted: Operand, rn_o: Operand, rm_o: Operand|
            #![trigger compare_reg_seq(result, shifted, rn_o, rm_o, shift)]
            is_local(result, "result"@) && is_local(shifted, "shifted"@) && is_named(rn_o, v7_register_name(rn))
                && is_named(rm_o, v7_register_name(rm)) && ops == compare_reg_seq(result, shifted, rn_o, rm_o, shift),
        V7Operation::CmnImmediate { rn, imm } => exists|result: Operand, rn_o: Operand|
            #![trigger cmn_imm_seq(result, rn_o, imm)]
            is_local(result, "result"@) && is_named(rn_o, v7_register_name(rn)) && ops == cmn_imm_seq(result, rn_o, imm),
        V7Operation::Uxth { rd, rm, rotation } => exists|rotated: Operand, h: Operand, rd_o: Operand, rm_o: Operand|
            #![trigger rotate_seq(rotated, rm_o, h, rotation), is_named(rd_o, v7_register_name(rd))]
            rotation_locals(rotated, h, rotation) && is_named(rd_o, v7_register_name(rd)) && is_named(
                rm_o,
                v7_register_name(rm),
            ) && ops == rotate_seq(rotated, rm_o, h, rotation) + seq![
                Operation::And { destination: rd_o, operand1: rotated, operand2: imm32(0x1_ffff) },
            ],
        V7Operation::Uxtb { rd, rm, rotation } => exists|rotated: Operand, h: Operand, rd_o: Operand, rm_o: Operand|
            #![trigger rotate_seq(rotated, rm_o, h, rotation), field_seq(rd_o, rotated, 7, 0)]
            rotation_locals(rotated, h, rotation) && is_named(rd_o, v7_register_name(rd)) && is_named(
                rm_o,
                v7_register_name(rm),
            ) && ops == rotate_seq(rotated, rm_o, h, rotation) + field_seq(rd_o, rotated, 7, 0),
        V7Operation::Sxtb { rd, rm, rotation } => exists|rotated: Operand, h: Operand, rd_o: Operand, rm_o: Operand|
            #![trigger rotate_seq(rotated, rm_o, h, rotation), is_named(rd_o, v7_register_name(rd))]
            rotation_locals(rotated, h, rotation) && is_named(rd_o, v7_register_name(rd)) && is_named(
                rm_o,
                v7_register_name(rm),
            ) && ops == rotate_seq(rotated, rm_o, h, rotation) + seq![
                Operation::And { destination: rotated, operand1: rotated, operand2: imm32(0xff) },
                Operation::SignExtend { destination: rd_o, operand: rotated, bits: 8 },
            ],
        V7Operation::Sxth { rd, rm, rotation } => exists|rotated: Operand, h: Operand, rd_o: Operand, rm_o: Operand|
            #![trigger rotate_seq(rotated, rm_o, h, rotation), is_named(rd_o, v7_register_name(rd))]
            rotation_locals(rotated, h, rotation) && is_named(rd_o, v7_register_name(rd)) && is_named(
                rm_o,
                v7_register_name(rm),
            ) && ops == rotate_seq(rotated, rm_o, h, rotation) + seq![
                Operation::And { destination: rotated, operand1: rotated, operand2: imm32(0xffff) },
                Operation::SignExtend { destination: rd_o, operand: rotated, bits: 16 },
            ],
        V7Operation::Ubfx { rd, rn, lsb, width } => exists|rd_o: Operand, rn_o: Operand|
            #![trigger is_named(rd_o, v7_register_name(rd)), is_named(rn_o, v7_register_name(rn))]
            is_named(rd_o, v7_register_name(rd)) && is_named(rn_o, v7_register_name(rn)) && ops == seq![
                Operation::Srl { destination: rd_o, operand: rn_o, shift: imm32(lsb) },
                Operation::And { destination: rd_o, operand1: rd_o, operand2: imm32(low_mask_of(width)) },
            ],
        V7Operation::Rev { rd, rm } => exists|b: Seq<Operand>, rd_o: Operand, rm_o: Operand|
            #![trigger reverse_locals(b), is_named(rd_o, v7_register_name(rd)), is_named(rm_o, v7_register_name(rm))]
            reverse_locals(b) && is_named(rd_o, v7_register_name(rd)) && is_named(rm_o, v7_register_name(rm)) && ops
                == reverse_seq(
                rd_o,
                rm_o,
                b,
                seq![0xffu32, 0xff00u32, 0xff_0000u32, 0xff00_0000u32],
                seq![24u32, 8u32, 8u32, 24u32],
                seq![true, true, false, false],
            ),
        V7Operation::Rev16 { rd, rm } => exists|b: Seq<Operand>, rd_o: Operand, rm_o: Operand|
            #![trigger reverse_locals(b), is_named(rd_o, v7_register_name(rd)), is_named(rm_o, v7_register_name(rm))]
            reverse_locals(b) && is_named(rd_o, v7_register_name(rd)) && is_named(rm_o, v7_register_name(rm)) && ops
                == reverse_seq(
                rd_o,
                rm_o,
                b,
                seq![0xffu32, 0xff00u32, 0xff_0000u32, 0xff00_0000u32],
                seq![8u32, 8u32, 8u32, 8u32],
                seq![true, false, true, false],
            ),
        V7Operation::LdrhImmediate { w, add, index, rt, rn, imm } => exists|
            oa: Operand,
            ad: Operand,
            wb: Operand,
            data: Operand,
            m: Operand,
            rn_o: Operand,
            rt_o: Operand,
        |
            #![trigger offset_seq(rn_o, imm32(imm), option_set(add), option_set(index), oa, ad), write_back(rn_o, wb, option_set(w)), is_memory(m, "address"@, 16), is_local(data, "data"@), is_named(rt_o, v7_register_name(rt))]
            is_local(oa, "offset_addr"@) && is_local(ad, "address"@) && is_local(wb, "offset_addr"@) && is_local(
                data,
                "data"@,
            ) && is_memory(m, "address"@, 16) && is_named(rn_o, v7_register_name(rn)) && is_named(
                rt_o,
                v7_register_name(rt),
            ) && ops == offset_seq(rn_o, imm32(imm), option_set(add), option_set(index), oa, ad) + seq![
                Operation::Move { destination: data, source: m },
            ] + write_back(rn_o, wb, option_set(w)) + seq![
                Operation::ZeroExtend { destination: rt_o, operand: data, bits: 16 },
            ],
        V7Operation::LdrbImmediate { w, add, index, rt, rn, imm } => exists|
            oa: Operand,
            ad: Operand,
            wb: Operand,
            m: Operand,
            rn_o: Operand,
            rt_o: Operand,
        |
            #![trigger offset_seq(rn_o, imm32(imm_or_zero(imm)), option_set(add), index, oa, ad), write_back(rn_o, wb, option_set(w)), is_memory(m, "address"@, 8), is_named(rt_o, v7_register_name(rt))]
            is_local(oa, "offset_addr"@) && is_local(ad, "address"@) && is_local(wb, "offset_addr"@) && is_memory(
                m,
                "address"@,
                8,
            ) && is_named(rn_o, v7_register_name(rn)) && is_named(rt_o, v7_register_name(rt)) && ops == offset_seq(
                rn_o,
                imm32(imm_or_zero(imm)),
                option_set(add),
                index,
                oa,
                ad,
            ) + seq![Operation::ZeroExtend { destination: rt_o, operand: m, bits: 8 }] + write_back(
                rn_o,
                wb,
                option_set(w),
            ),
        V7Operation::StrbImmediate { w, index, add, rt, rn, imm } => exists|
            oa: Operand,
            ad: Operand,
            wb: Operand,
            m: Operand,
            rn_o: Operand,
            rt_o: Operand,
        |
            #![trigger store_seq(rn_o, imm32(imm), add, option_set(index), oa, ad), str_tail(m, rn_o, wb, rt_o, option_set(w))]
            is_local(oa, "offset_addr"@) && is_local(ad, "address"@) && is_local(wb, "offset_addr"@) && is_memory(
                m,
                "address"@,
                8,
            ) && is_named(rn_o, v7_register_name(rn)) && is_named(rt_o, v7_register_name(rt)) && ops == store_seq(
                rn_o,
                imm32(imm),
                add,
                option_set(index),
                oa,
                ad,
            ) + str_tail(m, rn_o, wb, rt_o, option_set(w)),
        V7Operation::StrhImmediate { index, add, w, rt, rn, imm } => exists|
            oa: Operand,
            ad: Operand,
            wb: Operand,
            low: Operand,
            m: Operand,
            rn_o: Operand,
            rt_o: Operand,
        |
            #![trigger offset_seq(rn_o, imm32(imm_or_zero(imm)), add, index, oa, ad), write_back(rn_o, wb, w), is_memory(m, "address"@, 16), is_local(low, "low"@), is_named(rt_o, v7_register_name(rt))]
            is_local(oa, "offset_addr"@) && is_local(ad, "address"@) && is_local(wb, "offset_addr"@) && is_local(
                low,
                "low"@,
            ) && is_memory(m, "address"@, 16) && is_named(rn_o, v7_register_name(rn)) && is_named(
                rt_o,
                v7_register_name(rt),
            ) && ops == offset_seq(rn_o, imm32(imm_or_zero(imm)), add, index, oa, ad) + seq![
                Operation::And { destination: low, operand1: rt_o, operand2: imm32(0xffff) },
                Operation::Move { destination: m, source: low },
            ] + write_back(rn_o, wb, w),
        V7Operation::LslImmediate { s, rd, rm, imm } => exists|rd_o: Operand, rm_o: Operand|
            #![trigger shift_imm_seq(rd_o, rm_o, Shift::Lsl, imm, sets_flags(s, in_it_block))]
            is_named(rd_o, v7_register_name(rd)) && is_named(rm_o, v7_register_name(rm)) && ops == shift_imm_seq(
                rd_o,
                rm_o,
                Shift::Lsl,
                imm,
                sets_flags(s, in_it_block),
            ),
        V7Operation::LsrImmediate { s, rd, rm, imm } => exists|rd_o: Operand, rm_o: Operand|
            #![trigger shift_imm_seq(rd_o, rm_o, Shift::Lsr, imm, sets_flags(s, in_it_block))]
            is_named(rd_o, v7_register_name(rd)) && is_named(rm_o, v7_register_name(rm)) && ops == shift_imm_seq(
                rd_o,
                rm_o,
                Shift::Lsr,
                imm,
                sets_flags(s, in_it_block),
            ),
        V7Operation::AsrImmediate { s, rd, rm, imm } => exists|result: Operand, rd_o: Operand, rm_o: Operand|
            #![trigger asr_imm_seq(result, rd_o, rm_o, imm, sets_flags(s, in_it_block))]
            is_local(result, "result"@) && is_named(rd_o, v7_register_name(rd)) && is_named(rm_o, v7_register_name(rm))
                && ops == asr_imm_seq(result, rd_o, rm_o, imm, sets_flags(s, in_it_block)),
        V7Operation::Mla { rd, rn, rm, ra } => exists|rd_o: Operand, rn_o: Operand, rm_o: Operand, ra_o: Operand|
            #![trigger is_named(rd_o, v7_register_name(rd)), is_named(rn_o, v7_register_name(rn)), is_named(rm_o, v7_register_name(rm)), is_named(ra_o, v7_register_name(ra))]
            is_named(rd_o, v7_register_name(rd)) && is_named(rn_o, v7_register_name(rn)) && is_named(rm_o, v7_register_name(rm))
                && is_named(ra_o, v7_register_name(ra)) && ops == seq![
                Operation::Mul { destination: rd_o, operand1: rn_o, operand2: rm_o },
                Operation::Add { destination: rd_o, operand1: rd_o, operand2: ra_o },
            ],
        V7Operation::Mls { rd, rn, rm, ra } => exists|rd_o: Operand, rn_o: Operand, rm_o: Operand, ra_o: Operand|
            #![trigger is_named(rd_o, v7_register_name(rd)), is_named(rn_o, v7_register_name(rn)), is_named(rm_o, v7_register_name(rm)), is_named(ra_o, v7_register_name(ra))]
            is_named(rd_o, v7_register_name(rd)) && is_named(rn_o, v7_register_name(rn)) && is_named(rm_o, v7_register_name(rm))
                && is_named(ra_o, v7_register_name(ra)) && ops == seq![
                Operation::Mul { destination: rd_o, operand1: rn_o, operand2: rm_o },
                Operation::Sub { destination: rd_o, operand1: ra_o, operand2: rd_o },
            ],
        V7Operation::It { conds } => exists|c: Vec<Condition>|
            #![trigger seq![Operation::ConditionalExecution { conditions: c }]]
            c@ == conds@.map_values(|a: ArmCondition| condition_of(a)) && ops == seq![
                Operation::ConditionalExecution { conditions: c },
            ],
        V7Operation::Cbz { non, rn, imm } => exists|
            old_z: Operand,
            z1: Operand,
            z2: Operand,
            rn_o: Operand,
            dest: Operand,
            pc: Operand,
        |
            #![trigger cbz_seq(old_z, z1, z2, rn_o, dest, pc, imm, option_set(non))]
            is_local(old_z, "old_z"@) && is_flag(z1, "Z"@) && is_flag(z2, "Z"@) && is_named(rn_o, v7_register_name(rn))
                && is_local(dest, "dest"@) && is_named(pc, "PC+"@) && ops == cbz_seq(
                old_z,
                z1,
                z2,
                rn_o,
                dest,
                pc,
                imm,
                option_set(non),
            ),
        V7Operation::AddSPImmediate { s, rd, imm } => exists|result: Operand, sp: Operand, rd_o: Operand|
            #![trigger add_sp_seq(result, sp, rd_o, imm, option_set(s))]
            is_local(result, "result"@) && is_named(sp, "SP&"@) && is_named(rd_o, rd_name(rd, Register::SP)) && ops
                == add_sp_seq(result, sp, rd_o, imm, option_set(s)),
        V7Operation::Adr { rd, add, imm } => exists|aligned: Operand, pc: Operand, result: Operand, rd_o: Operand|
            #![trigger adr_seq(aligned, pc, result, rd_o, imm, add)]
            is_local(aligned, "aligned"@) && is_named(pc, "PC+"@) && is_local(result, "result"@) && is_named(
                rd_o,
                v7_register_name(rd),
            ) && ops == adr_seq(aligned, pc, result, rd_o, imm, add),
        V7Operation::Sdiv { rd, rn, rm } => exists|result: Operand, rd_o: Operand, rn_o: Operand, rm_o: Operand|
            #![trigger is_local(result, "result"@), is_named(rd_o, rd_name(rd, rn)), is_named(rn_o, v7_register_name(rn)), is_named(rm_o, v7_register_name(rm))]
            is_local(result, "result"@) && is_named(rd_o, rd_name(rd, rn)) && is_named(rn_o, v7_register_name(rn))
                && is_named(rm_o, v7_register_name(rm)) && ops == seq![
                Operation::SDiv { destination: result, operand1: rn_o, operand2: rm_o },
                Operation::Move { destination: rd_o, source: result },
            ],
        V7Operation::Udiv { rd, rn, rm } => exists|result: Operand, rd_o: Operand, rn_o: Operand, rm_o: Operand|
            #![trigger is_local(result, "result"@), is_named(rd_o, rd_name(rd, rn)), is_named(rn_o, v7_register_name(rn)), is_named(rm_o, v7_register_name(rm))]
            is_local(result, "result"@) && is_named(rd_o, rd_name(rd, rn)) && is_named(rn_o, v7_register_name(rn))
                && is_named(rm_o, v7_register_name(rm)) && ops == seq![
                Operation::UDiv { destination: result, operand1: rn_o, operand2: rm_o },
                Operation::Move { destination: rd_o, source: result },
            ],
        V7Operation::StrRegister { rt, rn, rm, shift } => exists|
            offset: Operand,
            address: Operand,
            m: Operand,
            rn_o: Operand,
            rm_o: Operand,
            rt_o: Operand,
        |
            #![trigger store_register_seq(offset, address, m, rn_o, rm_o, rt_o, steps_of(shift))]
            is_local(offset, "offset"@) && is_local(address, "address"@) && is_memory(m, "address"@, 32) && is_named(
                rn_o,
                v7_register_name(rn),
            ) && is_named(rm_o, v7_register_name(rm)) && is_named(rt_o, v7_register_name(rt)) && ops
                == store_register_seq(offset, address, m, rn_o, rm_o, rt_o, steps_of(shift)),
        V7Operation::StrbRegister { rt, rn, rm, shift } => exists|
            offset: Operand,
            address: Operand,
            m: Operand,
            rn_o: Operand,
            rm_o: Operand,
            rt_o: Operand,
        |
            #![trigger store_register_seq(offset, address, m, rn_o, rm_o, rt_o, steps_of(shift))]
            is_local(offset, "offset"@) && is_local(address, "address"@) && is_memory(m, "address"@, 8) && is_named(
                rn_o,
                v7_register_name(rn),
            ) && is_named(rm_o, v7_register_name(rm)) && is_named(rt_o, v7_register_name(rt)) && ops
                == store_register_seq(offset, address, m, rn_o, rm_o, rt_o, steps_of(shift)),
        V7Operation::AndRegister { s, rd, rn, rm, shift } => exists|
            result: Operand,
            shifted: Operand,
            rd_o: Operand,
            rn_o: Operand,
            rm_o: Operand,
        |
            #![trigger logic_reg_seq(Operation::And { destination: result, operand1: rn_o, operand2: shifted }, result, shifted, rd_o, rm_o, shift, true, sets_flags(s, in_it_block))]
            is_local(result, "result"@) && is_local(shifted, "shifted"@) && is_named(rd_o, rd_name(rd, rn)) && is_named(
                rn_o,
                v7_register_name(rn),
            ) && is_named(rm_o, v7_register_name(rm)) && ops == logic_reg_seq(
                Operation::And { destination: result, operand1: rn_o, operand2: shifted },
                result,
                shifted,
                rd_o,
                rm_o,
                shift,
                true,
                sets_flags(s, in_it_block),
            ),
        V7Operation::EorRegister { s, rd, rn, rm, shift } => exists|
            result: Operand,
            shifted: Operand,
            rd_o: Operand,
            rn_o: Operand,
            rm_o: Operand,
        |
            #![trigger logic_reg_seq(Operation::Xor { destination: result, operand1: rn_o, operand2: shifted }, result, shifted, rd_o, rm_o, shift, sets_flags(s, in_it_block), sets_flags(s, in_it_block))]
            is_local(result, "result"@) && is_local(shifted, "shifted"@) && is_named(rd_o, rd_name(rd, rn)) && is_named(
                rn_o,
                v7_register_name(rn),
            ) && is_named(rm_o, v7_register_name(rm)) && ops == logic_reg_seq(
                Operation::Xor { destination: result, operand1: rn_o, operand2: shifted },
                result,
                shifted,
                rd_o,
                rm_o,
                shift,
                sets_flags(s, in_it_block),
                sets_flags(s, in_it_block),
            ),
        V7Operation::OrrRegister { s, rd, rn, rm, shift } => exists|shifted: Operand, rd_o: Operand, rn_o: Operand, rm_o: Operand|
            #![trigger orr_reg_seq(shifted, rd_o, rn_o, rm_o, shift, sets_flags(s, in_it_block))]
            is_local(shifted, "shifted"@) && is_named(rd_o, rd_name(rd, rn)) && is_named(rn_o, v7_register_name(rn))
                && is_named(rm_o, v7_register_name(rm)) && ops == orr_reg_seq(
                shifted,
                rd_o,
                rn_o,
                rm_o,
                shift,
                sets_flags(s, in_it_block),
            ),
        V7Operation::CmpImmediate { rn, imm } => exists|result: Operand, rn_o: Operand|
            #![trigger is_local(result, "result"@), is_named(rn_o, v7_register_name(rn))]
            is_local(result, "result"@) && is_named(rn_o, v7_register_name(rn)) && ops == seq![
                Operation::Sub { destination: result, operand1: rn_o, operand2: imm32(imm) },
            ] + nzcv_seq(result, rn_o, imm32(imm), true, false),
        V7Operation::MovImmediate { s, rd, imm, carry } => exists|result: Operand, rd_o: Operand, c: Operand|
            #![trigger mov_imm_seq(result, rd_o, c, imm, sets_flags(s, in_it_block), carry)]
            is_local(result, "result"@) && is_named(rd_o, v7_register_name(rd)) && is_flag(c, "C"@) && ops
                == mov_imm_seq(result, rd_o, c, imm, sets_flags(s, in_it_block), carry),
        V7Operation::MovRegister { s, rd, rm } => exists|dest: Operand, rd_o: Operand, rm_o: Operand|
            #![trigger mov_reg_seq(dest, rd_o, rm_o, rd, option_set(s))]
            is_local(dest, "dest"@) && is_named(rd_o, v7_register_name(rd)) && is_named(rm_o, v7_register_name(rm))
                && ops == mov_reg_seq(dest, rd_o, rm_o, rd, option_set(s)),
        _ => true,
    }
}

/// A core register; the stack pointer is read and written word aligned and
/// the program counter reads as the address of the instruction plus four,
/// through the hooked registers `SP&` and `PC+`.
fn reg(r: &Register) -> (o: Operand)
    ensures
        is_named(o, v7_register_name(*r)),
{
    match r {
        Register::SP => named("SP&"),
        Register::PC => named("PC+"),
        _ => arm_register_to_ga_operand(r),
    }
}

/// A register of general assembly by name, such as the hooked `PC+`.
fn named(name: &str) -> (o: Operand)
    ensures
        is_named(o, name@),
{
    Operand::Register(owned(name))
}

/// A local of the instruction.
fn loc(name: &str) -> (o: Operand)
    ensures
        is_local(o, name@),
{
    Operand::Local(owned(name))
}

/// A 32 bit immediate.
fn word(v: u32) -> (o: Operand)
    ensures
        o == imm32(v),
{
    Operand::Immediate(DataWord::Word32(v))
}

/// A flag.
fn flag(name: &str) -> (o: Operand)
    ensures
        is_flag(o, name@),
{
    Operand::Flag(owned(name))
}

/// The `bits` bits of memory at the address in the local `name`.
fn memory(name: &str, bits: u32) -> (o: Operand)
    ensures
        is_memory(o, name@, bits),
{
    Operand::AddressInLocal(owned(name), bits)
}

fn op_mv(destination: &Operand, source: &Operand) -> (r: Operation)
    ensures
        r == (Operation::Move { destination: *destination, source: *source }),
{
    Operation::Move { destination: destination.clone(), source: source.clone() }
}

fn op_add(destination: &Operand, operand1: &Operand, operand2: &Operand) -> (r: Operation)
    ensures
        r == (Operation::Add { destination: *destination, operand1: *operand1, operand2: *operand2 }),
{
    Operation::Add { destination: destination.clone(), operand1: operand1.clone(), operand2: operand2.clone() }
}

fn op_adc(destination: &Operand, operand1: &Operand, operand2: &Operand) -> (r: Operation)
    ensures
        r == (Operation::Adc { destination: *destination, operand1: *operand1, operand2: *operand2 }),
{
    Operation::Adc { destination: destination.clone(), operand1: operand1.clone(), operand2: operand2.clone() }
}

fn op_sub(destination: &Operand, operand1: &Operand, operand2: &Operand) -> (r: Operation)
    ensures
        r == (Operation::Sub { destination: *destination, operand1: *operand1, operand2: *operand2 }),
{
    Operation::Sub { destination: destination.clone(), operand1: operand1.clone(), operand2: operand2.clone() }
}

fn op_and(destination: &Operand, operand1: &Operand, operand2: &Operand) -> (r: Operation)
    ensures
        r == (Operation::And { destination: *destination, operand1: *operand1, operand2: *operand2 }),
{
    Operation::And { destination: destination.clone(), operand1: operand1.clone(), operand2: operand2.clone() }
}

fn op_or(destination: &Operand, operand1: &Operand, operand2: &Operand) -> (r: Operation)
    ensures
        r == (Operation::Or { destination: *destination, operand1: *operand1, operand2: *operand2 }),
{
    Operation::Or { destination: destination.clone(), operand1: operand1.clone(), operand2: operand2.clone() }
}

/// The flag updates of `result`, and of the carry and overflow of
/// `operand1` and `operand2` (`sub`, `carry` as for `SetCFlag`).
fn flags_nzcv(ops: &mut Vec<Operation>, result: &Operand, operand1: &Operand, operand2: &Operand, sub: bool, carry: bool)
    ensures
        final(ops)@ == old(ops)@ + seq![Operation::SetNFlag(*result), Operation::SetZFlag(*result), Operation::SetCFlag { operand1: *operand1, operand2: *operand2, sub, carry }, Operation::SetVFlag { operand1: *operand1, operand2: *operand2, sub, carry }],
{
    ops.push(Operation::SetNFlag(result.clone()));
    ops.push(Operation::SetZFlag(result.clone()));
    ops.push(Operation::SetCFlag { operand1: operand1.clone(), operand2: operand2.clone(), sub, carry });
    ops.push(Operation::SetVFlag { operand1: operand1.clone(), operand2: operand2.clone(), sub, carry });
}

/// The negative and zero flag updates of `result`.
fn flags_nz(ops: &mut Vec<Operation>, result: &Operand)
    ensures
        final(ops)@ == old(ops)@ + seq![Operation::SetNFlag(*result), Operation::SetZFlag(*result)],
{
    ops.push(Operation::SetNFlag(result.clone()));
    ops.push(Operation::SetZFlag(result.clone()));
}

/// `x = x<31:1> << 1`: clears the lowest bit.
fn clear_low_bit(ops: &mut Vec<Operation>, x: &Operand)
    ensures
        final(ops)@ == old(ops)@ + seq![Operation::Srl { destination: *x, operand: *x, shift: imm32(1) }, Operation::Sl { destination: *x, operand: *x, shift: imm32(1) }],
{
    ops.push(Operation::Srl { destination: x.clone(), operand: x.clone(), shift: word(1) });
    ops.push(Operation::Sl { destination: x.clone(), operand: x.clone(), shift: word(1) });
}

/// The shift that an encoding's shift type and amount denote: a logical or
/// arithmetic right shift by zero shifts by 32 (as a logical shift), and a
/// rotation by zero is a rotation with extend by one.
pub fn imm_shift(shift_t: Shift, shift_n: u8) -> (r: ImmShift)
    ensures
        r == imm_shift_of(shift_t, shift_n),
        r == (match (shift_t, shift_n) {
            (Shift::Lsr, 0) => ImmShift { shift_t: Shift::Lsr, shift_n: 32 },
            (Shift::Asr, 0) => ImmShift { shift_t: Shift::Lsr, shift_n: 32 },
            (Shift::Ror, 0) => ImmShift { shift_t: Shift::Rrx, shift_n: 1 },
            _ => ImmShift { shift_t, shift_n },
        }),
{
    match (shift_t, shift_n) {
        (Shift::Lsr, 0) => ImmShift { shift_t: Shift::Lsr, shift_n: 32 },
        (Shift::Asr, 0) => ImmShift { shift_t: Shift::Lsr, shift_n: 32 },
        (Shift::Ror, 0) => ImmShift { shift_t: Shift::Rrx, shift_n: 1 },
        _ => ImmShift { shift_t, shift_n },
    }
}

/// `target = rm` shifted as `shift` says, or `rm` itself without a shift;
/// with `carry_of`, the carry flag then takes the carry of shifting
/// `carry_of`, which a rotation cannot give.
fn shift_into(
    ops: &mut Vec<Operation>,
    target: &Operand,
    rm: &Operand,
    shift: Option<ImmShift>,
    carry_of: Option<&Operand>,
) -> (r: Result<(), ArchError>)
    ensures
        r is Ok <==> (carry_of is None || carry_shift_ok(shift)),
        r is Err ==> r == Err::<(), ArchError>(untranslated()),
        r is Ok ==> final(ops)@ == old(ops)@ + shift_seq(
            *target,
            *rm,
            shift,
            match carry_of {
                Some(c) => Some(*c),
                None => None,
            },
        ),
{
    match shift {
        Some(sh) => {
            let n: Operand = word(sh.shift_n as u32);
            match carry_of {
                Some(c) => match sh.shift_t {
                    Shift::Lsl => ops.push(Operation::SetCFlagShiftLeft { operand: c.clone(), shift: n.clone() }),
                    Shift::Asr => ops.push(Operation::SetCFlagSra { operand: c.clone(), shift: n.clone() }),
                    Shift::Lsr => ops.push(Operation::SetCFlagSrl { operand: c.clone(), shift: n.clone() }),
                    _ => {
                        return Err(ArchError::ImplementorStringError("operation without a translation"));
                    },
                },
                None => {},
            }
            ops.push(Operation::Shift { destination: target.clone(), operand: rm.clone(), shift_n: n, shift_t: sh.shift_t });
        },
        None => ops.push(op_mv(target, rm)),
    }
    Ok(())
}

/// The address of a load or store: `offset_addr` is `rn` plus or minus
/// `imm`, the address is `offset_addr` when `index` and `rn` otherwise.
fn offset_address(ops: &mut Vec<Operation>, rn: &Operand, imm: &Operand, add_offset: bool, index: bool)
    ensures
        exists|oa: Operand, ad: Operand| #![trigger offset_seq(*rn, *imm, add_offset, index, oa, ad)] is_local(oa, "offset_addr"@) && is_local(ad, "address"@) && final(ops)@ == old(ops)@ + offset_seq(*rn, *imm, add_offset, index, oa, ad),
{
    let ghost start = ops@;
    let offset_addr: Operand = loc("offset_addr");
    let address: Operand = loc("address");
    ops.push(op_sub(&offset_addr, rn, imm));
    if add_offset {
        ops.push(op_add(&offset_addr, rn, imm));
    }
    ops.push(op_mv(&address, rn));
    if index {
        ops.push(op_mv(&address, &offset_addr));
    }
    assert(ops@ =~= start + offset_seq(*rn, *imm, add_offset, index, offset_addr, address));
}

/// The translation of a data processing operation.
#[verifier::rlimit(40)]
fn convert_data(op: &V7Operation, in_it_block: bool) -> (r: Result<Vec<Operation>, ArchError>)
    ensures
        r matches Ok(ops) ==> translation_of(*op, in_it_block, ops@),
        r is Err ==> r == Err::<Vec<Operation>, ArchError>(untranslated()),
        r is Ok <==> family_data(*op) && translatable(*op, in_it_block),
{
    let result: Operand = loc("result");
    let shifted: Operand = loc("shifted");
    let mut ops: Vec<Operation> = Vec::new();
    match op {
        V7Operation::AdcImmediate { s: set_flags, rd, rn, imm } => {
            let s: bool = match set_flags { Some(b) => *b, None => false };
            let rn_op: Operand = reg(rn);
            let rd_op: Operand = match rd { Some(d) => reg(d), None => rn_op.clone() };
            let imm_op: Operand = word(*imm);
            ops.push(op_adc(&result, &rn_op, &imm_op));
            if s {
                flags_nzcv(&mut ops, &result, &rn_op, &imm_op, false, true);
            }
            ops.push(op_mv(&rd_op, &result));
            proof {
                assert(s == option_set(*set_flags));
                assert(ops@ =~= adc_imm_seq(result, rn_op, rd_op, *imm, s));
                assert(translation_of(*op, in_it_block, ops@));
            }
        },
        V7Operation::AdcRegister { s, rd, rn, rm, shift } => {
            let s: bool = local_unwrap(*s, in_it_block);
            let rn_op: Operand = reg(rn);
            let rd_op: Operand = match rd { Some(d) => reg(d), None => rn_op.clone() };
            let rm_op: Operand = reg(rm);
            shift_into(&mut ops, &shifted, &rm_op, *shift, None)?;
            ops.push(op_adc(&result, &rn_op, &shifted));
            if s {
                flags_nzcv(&mut ops, &result, &rn_op, &shifted, false, true);
            }
            ops.push(op_mv(&rd_op, &result));
            proof {
                assert(ops@ =~= adc_reg_seq(result, shifted, rn_op, rd_op, rm_op, *shift, s));
                assert(translation_of(*op, in_it_block, ops@));
            }
        },
        V7Operation::AddImmediate { s, rd, rn, imm } => {
            let s: bool = local_unwrap(*s, in_it_block);
            let rn_op: Operand = reg(rn);
            let rd_op: Operand = match rd { Some(d) => reg(d), None => rn_op.clone() };
            let imm_op: Operand = word(*imm);
            let c: Operand = flag("C");
            ops.push(op_add(&result, &imm_op, &rn_op));
            ops.push(op_mv(&rd_op, &result));
            if s {
                flags_nz(&mut ops, &result);
                ops.push(op_mv(&c, &word(0)));
                ops.push(Operation::SetCFlag { operand1: imm_op.clone(), operand2: rn_op.clone(), sub: false, carry: false });
                ops.push(Operation::SetVFlag { operand1: imm_op.clone(), operand2: rn_op.clone(), sub: false, carry: false });
            }
            proof {
                assert(ops@ =~= add_imm_seq(result, rn_op, rd_op, c, *imm, s));
                assert(translation_of(*op, in_it_block, ops@));
            }
        },
        V7Operation::AddRegister { s, rd, rn, rm, shift } => {
            let s: bool = local_unwrap(*s, in_it_block);
            let should_jump: bool = match rd {
                Some(Register::PC) => true,
                None => *rn == Register::PC,
                _ => false,
            };
            let rn_op: Operand = reg(rn);
            let rd_op: Operand = match rd { Some(d) => reg(d), None => rn_op.clone() };
            let rm_op: Operand = reg(rm);
            let c: Operand = flag("C");
            shift_into(&mut ops, &shifted, &rm_op, *shift, None)?;
            ops.push(op_add(&result, &shifted, &rn_op));
            if should_jump {
                clear_low_bit(&mut ops, &result);
                ops.push(Operation::ConditionalJump { destination: result.clone(), condition: Condition::AL });
            } else {
                if s {
                    flags_nz(&mut ops, &result);
                    ops.push(op_mv(&c, &word(0)));
                    ops.push(Operation::SetCFlag { operand1: shifted.clone(), operand2: rn_op.clone(), sub: false, carry: false });
                    ops.push(Operation::SetVFlag { operand1: shifted.clone(), operand2: rn_op.clone(), sub: false, carry: false });
                }
                ops.push(op_mv(&rd_op, &result));
            }
            proof {
                assert(should_jump == add_jumps(*rd, *rn));
                assert(ops@ =~= add_reg_seq(result, shifted, rn_op, rd_op, rm_op, c, *shift, s, should_jump));
                assert(translation_of(*op, in_it_block, ops@));
            }
        },
        V7Operation::AddSPImmediate { s, rd, imm } => {
            let set: bool = match s { Some(b) => *b, None => false };
            let rd_op: Operand = match rd { Some(d) => reg(d), None => reg(&Register::SP) };
            let imm_op: Operand = word(*imm);
            let sp: Operand = named("SP&");
            ops.push(op_add(&result, &sp, &imm_op));
            if set {
                flags_nzcv(&mut ops, &result, &sp, &imm_op, false, false);
            }
            ops.push(op_mv(&rd_op, &result));
            proof {
                assert(ops@ =~= add_sp_seq(result, sp, rd_op, *imm, option_set(*s)));
                assert(translation_of(*op, in_it_block, ops@));
            }
        },
        V7Operation::AddSPRegister { s, rd, rm, shift } => {
            let rd_reg: Register = match rd { Some(d) => *d, None => *rm };
            let s: bool = match rd_reg {
                Register::PC => false,
                _ => match s { Some(b) => *b, None => false },
            };
            let rd_op: Operand = reg(&rd_reg);
            let sp: Operand = named("SP&");
            shift_into(&mut ops, &shifted, &reg(rm), *shift, None)?;
            ops.push(op_add(&result, &sp, &shifted));
            if s {
                flags_nzcv(&mut ops, &result, &sp, &shifted, false, false);
            }
            ops.push(op_mv(&rd_op, &result));
        },
        V7Operation::Adr { rd, add: add_offset, imm } => {
            let aligned: Operand = loc("aligned");
            let imm_op: Operand = word(*imm);
            let pc: Operand = named("PC+");
            let rd_op: Operand = reg(rd);
            ops.push(Operation::UDiv { destination: aligned.clone(), operand1: pc.clone(), operand2: word(4) });
            ops.push(Operation::Mul { destination: aligned.clone(), operand1: aligned.clone(), operand2: word(4) });
            ops.push(op_sub(&result, &aligned, &imm_op));
            if *add_offset {
                ops.push(op_add(&result, &aligned, &imm_op));
            }
            ops.push(op_mv(&rd_op, &result));
            proof {
                assert(ops@ =~= adr_seq(aligned, pc, result, rd_op, *imm, *add_offset));
                assert(translation_of(*op, in_it_block, ops@));
            }
        },
        V7Operation::AndImmediate { s, rd, rn, imm, carry } => {
            let set: bool = match s { Some(b) => *b, None => false };
            let rn_op: Operand = reg(rn);
            let rd_op: Operand = match rd { Some(d) => reg(d), None => rn_op.clone() };
            let c_op: Operand = flag("C");
            ops.push(op_and(&result, &rn_op, &word(*imm)));
            if set {
                flags_nz(&mut ops, &result);
            }
            match carry {
                Some(c) => if set {
                    ops.push(op_mv(&c_op, &word(if *c { 1 } else { 0 })));
                },
                None => {},
            }
            ops.push(op_mv(&rd_op, &result));
            proof {
                assert(ops@ =~= and_imm_seq(result, rn_op, rd_op, c_op, *imm, option_set(*s), *carry));
                assert(translation_of(*op, in_it_block, ops@));
            }
        },
        V7Operation::AndRegister { s, rd, rn, rm, shift } => {
            let s: bool = local_unwrap(*s, in_it_block);
            let rn_op: Operand = reg(rn);
            let rd_op: Operand = match rd { Some(d) => reg(d), None => rn_op.clone() };
            let rm_op: Operand = reg(rm);
            shift_into(&mut ops, &shifted, &rm_op, *shift, Some(&rm_op))?;
            ops.push(op_and(&result, &rn_op, &shifted));
            if s {
                flags_nz(&mut ops, &result);
            }
            ops.push(op_mv(&rd_op, &result));
            proof {
                assert(ops@ =~= logic_reg_seq(
                    Operation::And { destination: result, operand1: rn_op, operand2: shifted },
                    result,
                    shifted,
                    rd_op,
                    rm_op,
                    *shift,
                    true,
                    s,
                ));
                assert(translation_of(*op, in_it_block, ops@));
            }
        },
        V7Operation::AsrImmediate { s, rd, rm, imm } => {
            let s: bool = local_unwrap(*s, in_it_block);
            let rm_op: Operand = reg(rm);
            let imm_op: Operand = word(*imm);
            let rd_op: Operand = reg(rd);
            ops.push(Operation::Sra { destination: result.clone(), operand: rm_op.clone(), shift: imm_op.clone() });
            if s {
                ops.push(Operation::SetZFlag(result.clone()));
                ops.push(Operation::SetNFlag(result.clone()));
                ops.push(Operation::SetCFlagSra { operand: rm_op.clone(), shift: imm_op.clone() });
            }
            ops.push(op_mv(&rd_op, &result));
            proof {
                assert(ops@ =~= asr_imm_seq(result, rd_op, rm_op, *imm, s));
                assert(translation_of(*op, in_it_block, ops@));
            }
        },
        V7Operation::AsrRegister { s, rd, rn, rm } => {
            let s: bool = local_unwrap(*s, in_it_block);
            let rm_op: Operand = reg(rm);
            let rn_op: Operand = reg(rn);
            let shift_n: Operand = loc("shift_n");
            ops.push(op_and(&shift_n, &rm_op, &word(0xff)));
            ops.push(Operation::Sra { destination: result.clone(), operand: rn_op.clone(), shift: rm_op });
            if s {
                ops.push(Operation::SetZFlag(result.clone()));
                ops.push(Operation::SetNFlag(result.clone()));
                ops.push(Operation::SetCFlagSra { operand: rn_op, shift: shift_n });
            }
            ops.push(op_mv(&reg(rd), &result));
        },
        _ => {
            return Err(ArchError::ImplementorStringError("operation without a translation"));
        },
    }
    Ok(ops)
}

/// The translation of a branch, a comparison, a move or a multiplication.
#[verifier::spinoff_prover]
#[verifier::rlimit(100)]
fn convert_control(op: &V7Operation, in_it_block: bool) -> (r: Result<Vec<Operation>, ArchError>)
    ensures
        r matches Ok(ops) ==> translation_of(*op, in_it_block, ops@),
        r is Err ==> r == Err::<Vec<Operation>, ArchError>(untranslated()),
        r is Ok <==> family_control(*op) && translatable(*op, in_it_block),
{
    let result: Operand = loc("result");
    let shifted: Operand = loc("shifted");
    let mut ops: Vec<Operation> = Vec::new();
    match op {
        V7Operation::B { condition, imm } => {
            let target: Operand = loc("target");
            let pc: Operand = named("PC+");
            ops.push(op_add(&target, &pc, &word(*imm)));
            clear_low_bit(&mut ops, &target);
            ops.push(Operation::ConditionalJump { destination: target.clone(), condition: arm_cond_to_ga_cond(condition) });
            proof {
                assert(ops@ =~= b_seq(target, pc, *imm, *condition));
            }
        },
        V7Operation::Bfc { rd, lsb, msb } => {
            if !(*lsb <= *msb && *msb - *lsb < 31) {
                return Err(ArchError::ImplementorStringError("operation without a translation"));
            }
            let rd_op: Operand = reg(rd);
            let mask: u32 = !crate::arch::arm::v7::mask_dyn(*lsb, *msb);
            ops.push(op_and(&rd_op, &rd_op, &word(mask)));
            proof {
                assert(is_named(rd_op, v7_register_name(*rd)));
            }
        },
        V7Operation::Bfi { rd, rn, lsb, msb } => {
            if !(*lsb < *msb && *lsb < 32 && *msb - *lsb < 32) {
                return Err(ArchError::ImplementorStringError("operation without a translation"));
            }
            let diff: u32 = *msb - *lsb;
            let rd_op: Operand = reg(rd);
            let mask: Operand = loc("mask");
            let intermediate: Operand = loc("intermediate");
            ops.push(op_mv(&mask, &word((diff - 1) << *lsb)));
            ops.push(Operation::Not { destination: mask.clone(), operand: mask.clone() });
            ops.push(op_and(&rd_op, &rd_op, &mask));
            let low: u32 = if diff + 1 >= 32 { 0xffff_ffff } else { crate::arch::arm::v7::mask_dyn(0, diff) };
            let rn_op: Operand = reg(rn);
            ops.push(op_and(&intermediate, &rn_op, &word(low)));
            ops.push(Operation::Sl { destination: intermediate.clone(), operand: intermediate.clone(), shift: word(*lsb) });
            ops.push(op_or(&rd_op, &rd_op, &intermediate));
            proof {
                assert(low == width_mask(*lsb, *msb));
                assert(ops@ =~= bfi_seq(mask, intermediate, rd_op, rn_op, *lsb, *msb));
            }
        },
        V7Operation::BicImmediate { s, rd, rn, imm, carry } => {
            let s: bool = match s { Some(b) => *b, None => false };
            let rn_op: Operand = reg(rn);
            let rd_op: Operand = match rd { Some(d) => reg(d), None => rn_op.clone() };
            ops.push(Operation::Not { destination: result.clone(), operand: word(*imm) });
            ops.push(op_and(&result, &rn_op, &result));
            ops.push(op_mv(&rd_op, &result));
            if s {
                flags_nz(&mut ops, &result);
                match carry {
                    Some(c) => ops.push(op_mv(&flag("C"), &word(if *c { 1 } else { 0 }))),
                    None => {},
                }
            }
        },
        V7Operation::BicRegister { s, rd, rn, rm, shift } => {
            let s: bool = local_unwrap(*s, in_it_block);
            let rn_op: Operand = reg(rn);
            let rd_op: Operand = match rd { Some(d) => reg(d), None => rn_op.clone() };
            shift_into(&mut ops, &shifted, &reg(rm), *shift, None)?;
            match shift {
                Some(sh) => {
                    let n: Operand = word(sh.shift_n as u32);
                    match sh.shift_t {
                        Shift::Lsl => ops.push(Operation::SetCFlagShiftLeft { operand: shifted.clone(), shift: n }),
                        Shift::Asr => ops.push(Operation::SetCFlagSra { operand: shifted.clone(), shift: n }),
                        Shift::Lsr => ops.push(Operation::SetCFlagSrl { operand: shifted.clone(), shift: n }),
                        _ => {
                            return Err(ArchError::ImplementorStringError("operation without a translation"));
                        },
                    }
                },
                None => {},
            }
            ops.push(Operation::Not { destination: result.clone(), operand: shifted.clone() });
            ops.push(op_and(&result, &result, &rn_op));
            if s {
                flags_nz(&mut ops, &result);
            }
            ops.push(op_mv(&rd_op, &result));
        },
        V7Operation::Bkpt { .. } => ops.push(Operation::Nop),
        V7Operation::Bl { imm } => {
            let next_addr: Operand = loc("next_addr");
            let pc_plus: Operand = named("PC+");
            let lr: Operand = named("LR");
            let pc: Operand = named("PC");
            ops.push(op_mv(&next_addr, &pc_plus));
            clear_low_bit(&mut ops, &next_addr);
            ops.push(op_or(&lr, &next_addr, &word(1)));
            ops.push(op_add(&next_addr, &pc_plus, &word(*imm)));
            clear_low_bit(&mut ops, &next_addr);
            ops.push(op_mv(&pc, &next_addr));
            proof {
                assert(ops@ =~= bl_seq(next_addr, pc_plus, lr, pc, *imm));
                assert(translation_of(*op, in_it_block, ops@));
            }
        },
        V7Operation::Bx { rm } => {
            let next_addr: Operand = loc("next_addr");
            let rm_op: Operand = reg(rm);
            let pc: Operand = named("PC");
            ops.push(op_mv(&next_addr, &rm_op));
            clear_low_bit(&mut ops, &next_addr);
            ops.push(op_mv(&pc, &next_addr));
            proof {
                assert(ops@ =~= bx_seq(next_addr, rm_op, pc));
                assert(translation_of(*op, in_it_block, ops@));
            }
        },
        V7Operation::CmnImmediate { rn, imm } => {
            let rn_op: Operand = reg(rn);
            let imm_op: Operand = word(*imm);
            ops.push(op_add(&result, &rn_op, &imm_op));
            flags_nzcv(&mut ops, &result, &rn_op, &imm_op, false, false);
            proof {
                assert(ops@ =~= cmn_imm_seq(result, rn_op, *imm));
                assert(translation_of(*op, in_it_block, ops@));
            }
        },
        V7Operation::CmpImmediate { rn, imm } => {
            let rn_op: Operand = reg(rn);
            let imm_op: Operand = word(*imm);
            ops.push(op_sub(&result, &rn_op, &imm_op));
            flags_nzcv(&mut ops, &result, &rn_op, &imm_op, true, false);
            proof {
                assert(ops@ =~= seq![
                    Operation::Sub { destination: result, operand1: rn_op, operand2: imm32(*imm) },
                ] + nzcv_seq(result, rn_op, imm32(*imm), true, false));
                assert(translation_of(*op, in_it_block, ops@));
            }
        },
        V7Operation::CmpRegister { rn, rm, shift } => {
            let rn_op: Operand = reg(rn);
            let rm_op: Operand = reg(rm);
            shift_into(&mut ops, &shifted, &rm_op, *shift, None)?;
            ops.push(op_sub(&result, &rn_op, &shifted));
            flags_nzcv(&mut ops, &result, &rn_op, &shifted, true, false);
            proof {
                assert(ops@ =~= compare_reg_seq(result, shifted, rn_op, rm_op, *shift));
                assert(translation_of(*op, in_it_block, ops@));
            }
        },
        V7Operation::LslImmediate { s, rd, rm, imm } => {
            let s: bool = local_unwrap(*s, in_it_block);
            let rd_op: Operand = reg(rd);
            let rm_op: Operand = reg(rm);
            let sh: ImmShift = imm_shift(Shift::Lsl, *imm);
            shift_into(&mut ops, &rd_op, &rm_op, Some(sh), if s { Some(&rm_op) } else { None })?;
            if s {
                flags_nz(&mut ops, &rd_op);
            }
            proof {
                assert(ops@ =~= shift_imm_seq(rd_op, rm_op, Shift::Lsl, *imm, s));
                assert(translation_of(*op, in_it_block, ops@));
            }
        },
        V7Operation::LsrImmediate { s, rd, rm, imm } => {
            let s: bool = local_unwrap(*s, in_it_block);
            let rd_op: Operand = reg(rd);
            let rm_op: Operand = reg(rm);
            let sh: ImmShift = imm_shift(Shift::Lsr, *imm);
            shift_into(&mut ops, &rd_op, &rm_op, Some(sh), if s { Some(&rm_op) } else { None })?;
            if s {
                flags_nz(&mut ops, &rd_op);
            }
            proof {
                assert(ops@ =~= shift_imm_seq(rd_op, rm_op, Shift::Lsr, *imm, s));
                assert(translation_of(*op, in_it_block, ops@));
            }
        },
        V7Operation::MovImmediate { s, rd, imm, carry } => {
            let s: bool = local_unwrap(*s, in_it_block);
            let rd_op: Operand = reg(rd);
            let c_op: Operand = flag("C");
            ops.push(op_mv(&result, &word(*imm)));
            ops.push(op_mv(&rd_op, &result));
            if s {
                flags_nz(&mut ops, &result);
                match carry {
                    Some(c) => ops.push(op_mv(&c_op, &word(if *c { 1 } else { 0 }))),
                    None => {},
                }
            }
            proof {
                assert(ops@ =~= mov_imm_seq(result, rd_op, c_op, *imm, s, *carry));
                assert(translation_of(*op, in_it_block, ops@));
            }
        },
        V7Operation::MovRegister { s, rd, rm } => {
            let rm_op: Operand = reg(rm);
            let dest: Operand = loc("dest");
            let rd_op: Operand = reg(rd);
            if *rd == Register::PC {
                ops.push(op_mv(&dest, &rm_op));
                clear_low_bit(&mut ops, &dest);
                ops.push(Operation::ConditionalJump { destination: dest.clone(), condition: Condition::AL });
            } else {
                ops.push(op_mv(&rd_op, &rm_op));
                if *s == Some(true) {
                    flags_nz(&mut ops, &rd_op);
                }
            }
            proof {
                assert(ops@ =~= mov_reg_seq(dest, rd_op, rm_op, *rd, option_set(*s)));
                assert(translation_of(*op, in_it_block, ops@));
            }
        },
        V7Operation::Mul { s, rd, rn, rm } => {
            let s: bool = local_unwrap(*s, in_it_block);
            let rn_op: Operand = reg(rn);
            let rd_op: Operand = match rd { Some(d) => reg(d), None => rn_op.clone() };
            let rm_op: Operand = reg(rm);
            ops.push(Operation::Mul { destination: rd_op.clone(), operand1: rn_op.clone(), operand2: rm_op.clone() });
            if s {
                ops.push(Operation::SetZFlag(rd_op.clone()));
                ops.push(Operation::SetNFlag(rd_op.clone()));
            }
            proof {
                assert(ops@ =~= seq![Operation::Mul { destination: rd_op, operand1: rn_op, operand2: rm_op }] + if s {
                    seq![Operation::SetZFlag(rd_op), Operation::SetNFlag(rd_op)]
                } else {
                    seq![]
                });
                assert(is_named(rd_op, rd_name(*rd, *rn)) && is_named(rn_op, v7_register_name(*rn)) && is_named(
                    rm_op,
                    v7_register_name(*rm),
                ));
                assert(translation_of(*op, in_it_block, ops@));
            }
        },
        V7Operation::Nop => {
            ops.push(Operation::Nop);
            proof {
                assert(ops@ =~= seq![Operation::Nop]);
            }
        },
        V7Operation::RsbImmediate { s, rd, rn, imm } => {
            let s: bool = local_unwrap(*s, in_it_block);
            let rn_op: Operand = reg(rn);
            let rd_op: Operand = match rd { Some(d) => reg(d), None => rn_op.clone() };
            let imm_op: Operand = word(*imm);
            let carry: Operand = flag("C");
            let intermediate: Operand = loc("intermediate");
            let old_carry: Operand = loc("old_carry");
            ops.push(op_mv(&old_carry, &carry));
            ops.push(op_mv(&carry, &word(1)));
            ops.push(Operation::Not { destination: intermediate.clone(), operand: rn_op });
            ops.push(op_adc(&rd_op, &intermediate, &imm_op));
            if s {
                ops.push(Operation::SetZFlag(rd_op.clone()));
                ops.push(Operation::SetNFlag(rd_op));
                ops.push(Operation::SetCFlag { operand1: intermediate, operand2: imm_op, sub: false, carry: true });
            } else {
                ops.push(op_mv(&carry, &old_carry));
            }
        },
        V7Operation::SubImmediate { s, rd, rn, imm } => {
            let s: bool = local_unwrap(*s, in_it_block);
            let rn_op: Operand = reg(rn);
            let rd_op: Operand = match rd { Some(d) => reg(d), None => rn_op.clone() };
            let imm_op: Operand = word(*imm);
            let old_rn: Operand = loc("old_rn");
            ops.push(op_mv(&old_rn, &rn_op));
            ops.push(op_sub(&result, &rn_op, &imm_op));
            if s {
                flags_nzcv(&mut ops, &result, &old_rn, &imm_op, true, false);
            }
            ops.push(op_mv(&rd_op, &result));
            proof {
                assert(ops@ =~= sub_imm_seq(result, old_rn, rn_op, rd_op, *imm, s));
                assert(translation_of(*op, in_it_block, ops@));
            }
        },
        V7Operation::SubRegister { s, rd, rn, rm, shift } => {
            let s: bool = local_unwrap(*s, in_it_block);
            let rn_op: Operand = reg(rn);
            let rd_op: Operand = match rd { Some(d) => reg(d), None => rn_op.clone() };
            let old_rn: Operand = loc("old_rn");
            let rm_op: Operand = reg(rm);
            shift_into(&mut ops, &shifted, &rm_op, *shift, None)?;
            ops.push(op_mv(&old_rn, &rn_op));
            ops.push(op_sub(&result, &rn_op, &shifted));
            if s {
                flags_nzcv(&mut ops, &result, &old_rn, &shifted, true, false);
            }
            ops.push(op_mv(&rd_op, &result));
            proof {
                assert(ops@ =~= sub_reg_seq(result, shifted, old_rn, rn_op, rd_op, rm_op, *shift, s));
                assert(translation_of(*op, in_it_block, ops@));
            }
        },
        V7Operation::SubSpMinusImmediate { s, rd, imm } => {
            let s: bool = match s { Some(b) => *b, None => false };
            let rd_op: Operand = match rd { Some(d) => reg(d), None => named("SP") };
            let rn_op: Operand = reg(&Register::SP);
            let imm_op: Operand = word(*imm);
            ops.push(op_sub(&result, &rn_op, &imm_op));
            if s {
                flags_nz(&mut ops, &result);
                ops.push(Operation::SetVFlag { operand1: rn_op.clone(), operand2: imm_op.clone(), sub: true, carry: false });
                ops.push(Operation::SetCFlag { operand1: rn_op, operand2: imm_op, sub: true, carry: false });
            }
            ops.push(op_mv(&rd_op, &result));
        },
        V7Operation::Uxth { rd, rm, rotation } => {
            let rotated: Operand = loc("rotated");
            let rm_op: Operand = reg(rm);
            let rd_op: Operand = reg(rd);
            rotate(&mut ops, &rotated, &rm_op, rotation);
            let ghost mid = ops@;
            ops.push(op_and(&rd_op, &rotated, &word(0x1_ffff)));
            proof {
                let h = choose|h: Operand| #![trigger rotate_seq(rotated, rm_op, h, *rotation)] (rotation_of(*rotation) != 0
                    ==> is_local(h, "rotated_out"@)) && mid == Seq::<Operation>::empty() + rotate_seq(rotated, rm_op, h, *rotation);
                assert(ops@ =~= rotate_seq(rotated, rm_op, h, *rotation) + seq![
                    Operation::And { destination: rd_op, operand1: rotated, operand2: imm32(0x1_ffff) },
                ]);
                assert(rotation_locals(rotated, h, *rotation));
                assert(translation_of(*op, in_it_block, ops@));
            }
        },
        _ => {
            return Err(ArchError::ImplementorStringError("operation without a translation"));
        },
    }
    Ok(ops)
}

/// A load of the word at the address in the local `address` into `rt`; a
/// load into the program counter jumps to the loaded address with its lowest
/// bit cleared.
fn load_into(ops: &mut Vec<Operation>, rt: &Register)
    ensures
        *rt == Register::PC ==> exists|data: Operand, m: Operand| is_local(data, "data"@) && is_memory(m, "address"@, 32) && final(ops)@ == old(ops)@ + seq![Operation::Move { destination: data, source: m }, Operation::Srl { destination: data, operand: data, shift: imm32(1) }, Operation::Sl { destination: data, operand: data, shift: imm32(1) }, Operation::ConditionalJump { destination: data, condition: Condition::AL }],
        *rt != Register::PC ==> exists|data: Operand, m: Operand, t: Operand| is_local(data, "data"@) && is_memory(m, "address"@, 32) && is_named(t, v7_register_name(*rt)) && final(ops)@ == old(ops)@ + seq![Operation::Move { destination: data, source: m }, Operation::Move { destination: t, source: data }],
{
    let ghost start = ops@;
    let data: Operand = loc("data");
    let m: Operand = memory("address", 32);
    ops.push(op_mv(&data, &m));
    if *rt == Register::PC {
        clear_low_bit(ops, &data);
        ops.push(Operation::ConditionalJump { destination: data.clone(), condition: Condition::AL });
        assert(ops@ =~= start + seq![Operation::Move { destination: data, source: m }, Operation::Srl { destination: data, operand: data, shift: imm32(1) }, Operation::Sl { destination: data, operand: data, shift: imm32(1) }, Operation::ConditionalJump { destination: data, condition: Condition::AL }]);
    } else {
        let t: Operand = reg(rt);
        ops.push(op_mv(&t, &data));
        assert(ops@ =~= start + seq![Operation::Move { destination: data, source: m }, Operation::Move { destination: t, source: data }]);
    }
}

/// The translation of a load, a store or a stack operation.
#[verifier::spinoff_prover]
#[verifier::rlimit(100)]
fn convert_memory(op: &V7Operation) -> (r: Result<Vec<Operation>, ArchError>)
    ensures
        r matches Ok(ops) ==> translation_of(*op, false, ops@),
        r is Err ==> r == Err::<Vec<Operation>, ArchError>(untranslated()),
        r is Ok <==> family_memory(*op) && translatable(*op, false),
{
    let mut ops: Vec<Operation> = Vec::new();
    let address: Operand = loc("address");
    let offset_addr: Operand = loc("offset_addr");
    match op {
        V7Operation::LdrImmediate { w, add: add_offset, index, rt, rn, imm } => {
            let rn_op: Operand = reg(rn);
            let rt_op: Operand = reg(rt);
            let m: Operand = memory("address", 32);
            let imm_op: Operand = word(*imm);
            offset_address(&mut ops, &rn_op, &imm_op, *add_offset, *index);
            let ghost head = ops@;
            let data: Operand = loc("data");
            ops.push(op_mv(&data, &m));
            if *w == Some(true) {
                ops.push(op_mv(&rn_op, &offset_addr));
            }
            if *rt == Register::PC {
                clear_low_bit(&mut ops, &data);
                ops.push(Operation::ConditionalJump { destination: data.clone(), condition: Condition::AL });
            } else {
                ops.push(op_mv(&rt_op, &data));
            }
            proof {
                let (oa, ad) = choose|oa: Operand, ad: Operand| #![trigger offset_seq(rn_op, imm_op, *add_offset, *index, oa, ad)]
                    is_local(oa, "offset_addr"@) && is_local(ad, "address"@) && head == Seq::<Operation>::empty()
                    + offset_seq(rn_op, imm_op, *add_offset, *index, oa, ad);
                assert(ops@ =~= offset_seq(rn_op, imm32(*imm), *add_offset, *index, oa, ad) + ldr_tail(
                    data,
                    m,
                    rn_op,
                    offset_addr,
                    rt_op,
                    *rt,
                    option_set(*w),
                ));
                assert(translation_of(*op, false, ops@));
            }
        },
        V7Operation::LdrLiteral { add: add_offset, rt, imm } => {
            let base: Operand = loc("base");
            let imm_op: Operand = word(*imm);
            ops.push(Operation::UDiv { destination: base.clone(), operand1: named("PC+"), operand2: word(4) });
            ops.push(Operation::Mul { destination: base.clone(), operand1: base.clone(), operand2: word(4) });
            ops.push(op_sub(&address, &base, &imm_op));
            if *add_offset {
                ops.push(op_add(&address, &base, &imm_op));
            }
            load_into(&mut ops, rt);
        },
        V7Operation::LdrRegister { w, rt, rn, rm, shift } => {
            let offset: Operand = loc("offset");
            let n: u32 = match shift { Some(sh) => sh.shift_n as u32, None => 0 };
            ops.push(Operation::Sl { destination: offset.clone(), operand: reg(rm), shift: word(n) });
            ops.push(op_add(&offset_addr, &reg(rn), &offset));
            ops.push(op_mv(&address, &offset_addr));
            let data: Operand = loc("data");
            ops.push(op_mv(&data, &memory("address", 32)));
            if *w == Some(true) {
                ops.push(op_mv(&reg(rn), &offset_addr));
            }
            if *rt == Register::PC {
                clear_low_bit(&mut ops, &data);
                ops.push(Operation::ConditionalJump { destination: data, condition: Condition::AL });
            } else {
                ops.push(op_mv(&reg(rt), &data));
            }
        },
        V7Operation::LdrhImmediate { w, add: add_offset, index, rt, rn, imm } => {
            let rn_op: Operand = reg(rn);
            let rt_op: Operand = reg(rt);
            let m: Operand = memory("address", 16);
            let imm_op: Operand = word(*imm);
            offset_address(&mut ops, &rn_op, &imm_op, *add_offset == Some(true), *index == Some(true));
            let ghost head = ops@;
            let data: Operand = loc("data");
            ops.push(op_mv(&data, &m));
            if *w == Some(true) {
                ops.push(op_mv(&rn_op, &offset_addr));
            }
            ops.push(Operation::ZeroExtend { destination: rt_op.clone(), operand: data.clone(), bits: 16 });
            proof {
                let (oa, ad) = choose|oa: Operand, ad: Operand| #![trigger offset_seq(rn_op, imm_op, option_set(*add_offset), option_set(*index), oa, ad)]
                    is_local(oa, "offset_addr"@) && is_local(ad, "address"@) && head == Seq::<Operation>::empty()
                    + offset_seq(rn_op, imm_op, option_set(*add_offset), option_set(*index), oa, ad);
                assert(ops@ =~= offset_seq(rn_op, imm32(*imm), option_set(*add_offset), option_set(*index), oa, ad) + seq![
                    Operation::Move { destination: data, source: m },
                ] + write_back(rn_op, offset_addr, option_set(*w)) + seq![
                    Operation::ZeroExtend { destination: rt_op, operand: data, bits: 16 },
                ]);
                assert(translation_of(*op, false, ops@));
            }
        },
        V7Operation::LdrbImmediate { w, add: add_offset, index, rt, rn, imm } => {
            let rn_op: Operand = reg(rn);
            let rt_op: Operand = reg(rt);
            let m: Operand = memory("address", 8);
            let offset: u32 = match imm { Some(i) => *i, None => 0 };
            let imm_op: Operand = word(offset);
            offset_address(&mut ops, &rn_op, &imm_op, *add_offset == Some(true), *index);
            let ghost head = ops@;
            ops.push(Operation::ZeroExtend { destination: rt_op.clone(), operand: m.clone(), bits: 8 });
            if *w == Some(true) {
                ops.push(op_mv(&rn_op, &offset_addr));
            }
            proof {
                let (oa, ad) = choose|oa: Operand, ad: Operand| #![trigger offset_seq(rn_op, imm_op, option_set(*add_offset), *index, oa, ad)]
                    is_local(oa, "offset_addr"@) && is_local(ad, "address"@) && head == Seq::<Operation>::empty()
                    + offset_seq(rn_op, imm_op, option_set(*add_offset), *index, oa, ad);
                assert(ops@ =~= offset_seq(rn_op, imm32(imm_or_zero(*imm)), option_set(*add_offset), *index, oa, ad)
                    + seq![Operation::ZeroExtend { destination: rt_op, operand: m, bits: 8 }] + write_back(
                    rn_op,
                    offset_addr,
                    option_set(*w),
                ));
                assert(translation_of(*op, false, ops@));
            }
        },
        V7Operation::StrImmediate { w, index, add: add_offset, rt, rn, imm } => {
            let rn_op: Operand = reg(rn);
            let rt_op: Operand = reg(rt);
            let m: Operand = memory("address", 32);
            let imm_op: Operand = word(*imm);
            store_address(&mut ops, &rn_op, &imm_op, *add_offset, *index == Some(true));
            let ghost head = ops@;
            ops.push(op_mv(&m, &rt_op));
            if *w == Some(true) {
                ops.push(op_mv(&rn_op, &offset_addr));
            }
            proof {
                let (oa, ad) = choose|oa: Operand, ad: Operand| #![trigger store_seq(rn_op, imm_op, *add_offset, option_set(*index), oa, ad)]
                    is_local(oa, "offset_addr"@) && is_local(ad, "address"@) && head == Seq::<Operation>::empty()
                    + store_seq(rn_op, imm_op, *add_offset, option_set(*index), oa, ad);
                assert(ops@ =~= store_seq(rn_op, imm32(*imm), *add_offset, option_set(*index), oa, ad) + str_tail(
                    m,
                    rn_op,
                    offset_addr,
                    rt_op,
                    option_set(*w),
                ));
                assert(translation_of(*op, false, ops@));
            }
        },
        V7Operation::StrbImmediate { w, index, add: add_offset, rt, rn, imm } => {
            let rn_op: Operand = reg(rn);
            let rt_op: Operand = reg(rt);
            let m: Operand = memory("address", 8);
            let imm_op: Operand = word(*imm);
            store_address(&mut ops, &rn_op, &imm_op, *add_offset, *index == Some(true));
            let ghost head = ops@;
            ops.push(op_mv(&m, &rt_op));
            if *w == Some(true) {
                ops.push(op_mv(&rn_op, &offset_addr));
            }
            proof {
                let (oa, ad) = choose|oa: Operand, ad: Operand| #![trigger store_seq(rn_op, imm_op, *add_offset, option_set(*index), oa, ad)]
                    is_local(oa, "offset_addr"@) && is_local(ad, "address"@) && head == Seq::<Operation>::empty()
                    + store_seq(rn_op, imm_op, *add_offset, option_set(*index), oa, ad);
                assert(ops@ =~= store_seq(rn_op, imm32(*imm), *add_offset, option_set(*index), oa, ad) + str_tail(
                    m,
                    rn_op,
                    offset_addr,
                    rt_op,
                    option_set(*w),
                ));
                assert(translation_of(*op, false, ops@));
            }
        },
        V7Operation::StrhImmediate { index, add: add_offset, w, rt, rn, imm } => {
            let rn_op: Operand = reg(rn);
            let rt_op: Operand = reg(rt);
            let m: Operand = memory("address", 16);
            let offset: u32 = match imm { Some(i) => *i, None => 0 };
            let imm_op: Operand = word(offset);
            offset_address(&mut ops, &rn_op, &imm_op, *add_offset, *index);
            let ghost head = ops@;
            let low: Operand = loc("low");
            ops.push(op_and(&low, &rt_op, &word(0xffff)));
            ops.push(op_mv(&m, &low));
            if *w {
                ops.push(op_mv(&rn_op, &offset_addr));
            }
            proof {
                let (oa, ad) = choose|oa: Operand, ad: Operand| #![trigger offset_seq(rn_op, imm_op, *add_offset, *index, oa, ad)]
                    is_local(oa, "offset_addr"@) && is_local(ad, "address"@) && head == Seq::<Operation>::empty()
                    + offset_seq(rn_op, imm_op, *add_offset, *index, oa, ad);
                assert(ops@ =~= offset_seq(rn_op, imm32(imm_or_zero(*imm)), *add_offset, *index, oa, ad) + seq![
                    Operation::And { destination: low, operand1: rt_op, operand2: imm32(0xffff) },
                    Operation::Move { destination: m, source: low },
                ] + write_back(rn_op, offset_addr, *w));
                assert(translation_of(*op, false, ops@));
            }
        },
        V7Operation::Pop { registers } => {
            if registers.len() > 16 {
                return Err(ArchError::ImplementorStringError("operation without a translation"));
            }
            let count: u32 = registers.len() as u32;
            let sp_aligned: Operand = named("SP&");
            let sp: Operand = named("SP");
            ops.push(op_mv(&address, &sp_aligned));
            ops.push(op_add(&sp, &sp, &word(4 * count)));
            let ghost head = ops@;
            load_multiple(&mut ops, registers);
            proof {
                let k = choose|k: int| head.len() <= k <= ops@.len() && ops@.subrange(0, head.len() as int) == head
                    && #[trigger] loads(ops@.subrange(head.len() as int, k), registers@) && (registers@.contains(Register::PC)
                    ==> jump_tail(ops@.subrange(k, ops@.len() as int))) && (!registers@.contains(Register::PC) ==> k == ops@.len());
                assert(ops@[0] == head[0]);
                assert(ops@[1] == head[1]);
                assert(loads(ops@.subrange(2, k), registers@));
                assert(pop_ok(registers@, ops@));
            }
        },
        V7Operation::Push { registers } => {
            if registers.len() > 16 {
                return Err(ArchError::ImplementorStringError("operation without a translation"));
            }
            if holds(registers, Register::SP) || holds(registers, Register::PC) {
                return Err(ArchError::ImplementorStringError("operation without a translation"));
            }
            let count: u32 = registers.len() as u32;
            ops.push(op_sub(&address, &named("SP"), &word(4 * count)));
            let ghost head = ops@;
            store_multiple(&mut ops, registers);
            let ghost body = ops@;
            ops.push(op_sub(&named("SP"), &named("SP&"), &word(4 * count)));
            proof {
                assert(ops@[0] == head[0]);
                assert forall|i: int| 0 <= i < registers@.len() implies store_pair(
                    ops@[1 + 2 * i],
                    ops@[2 + 2 * i],
                    #[trigger] registers@[i],
                ) by {
                    assert(ops@[1 + 2 * i] == body[1 + 2 * i]);
                    assert(ops@[2 + 2 * i] == body[2 + 2 * i]);
                    assert(store_pair(body[head.len() + 2 * i], body[head.len() + 2 * i + 1], registers@[i]));
                }
                assert(push_ok(registers@, ops@));
            }
        },
        V7Operation::Tb { is_tbh, rn, rm } => {
            let halfwords: Operand = loc("halfwords");
            let target: Operand = loc("target");
            ops.push(op_mv(&halfwords, &word(0)));
            if *is_tbh == Some(true) {
                ops.push(Operation::Sl { destination: address.clone(), operand: reg(rm), shift: word(1) });
                ops.push(op_add(&address, &address, &reg(rn)));
                ops.push(Operation::ZeroExtend { destination: halfwords.clone(), operand: memory("address", 16), bits: 16 });
            } else {
                ops.push(op_add(&address, &reg(rn), &reg(rm)));
                ops.push(Operation::ZeroExtend { destination: halfwords.clone(), operand: memory("address", 8), bits: 8 });
            }
            ops.push(Operation::Mul { destination: target.clone(), operand1: halfwords, operand2: word(2) });
            ops.push(op_add(&target, &target, &named("PC+")));
            clear_low_bit(&mut ops, &target);
            ops.push(Operation::ConditionalJump { destination: target, condition: Condition::AL });
        },
        _ => {
            return Err(ArchError::ImplementorStringError("operation without a translation"));
        },
    }
    Ok(ops)
}

/// The address of a store: `offset_addr` is `rn` plus `imm` when
/// `add_offset` and minus it otherwise; the address is `offset_addr` when
/// `index` and `rn` otherwise.
fn store_address(ops: &mut Vec<Operation>, rn: &Operand, imm: &Operand, add_offset: bool, index: bool)
    ensures
        exists|oa: Operand, ad: Operand| #![trigger store_seq(*rn, *imm, add_offset, index, oa, ad)] is_local(oa, "offset_addr"@) && is_local(ad, "address"@) && final(ops)@ == old(ops)@ + store_seq(*rn, *imm, add_offset, index, oa, ad),
{
    let ghost start = ops@;
    let offset_addr: Operand = loc("offset_addr");
    let address: Operand = loc("address");
    ops.push(op_mv(&offset_addr, &word(0)));
    if add_offset {
        ops.push(op_add(&offset_addr, rn, imm));
    } else {
        ops.push(op_sub(&offset_addr, rn, imm));
    }
    ops.push(op_mv(&address, &word(0)));
    if index {
        ops.push(op_mv(&address, &offset_addr));
    } else {
        ops.push(op_mv(&address, rn));
    }
    assert(ops@ =~= start + store_seq(*rn, *imm, add_offset, index, offset_addr, address));
}

/// The carry flag set to the carry of an expanded immediate, when the
/// encoding gives one.
/// The carry of an immediate's encoding, when it gives one, written to `c`.
fn carry_into(ops: &mut Vec<Operation>, c: &Operand, carry: &Option<bool>)
    ensures
        final(ops)@ == old(ops)@ + carry_seq(*c, *carry),
{
    match carry {
        Some(b) => ops.push(op_mv(c, &word(if *b { 1 } else { 0 }))),
        None => {},
    }
    proof {
        assert(final(ops)@ =~= old(ops)@ + carry_seq(*c, *carry));
    }
}

fn carry_of_immediate(ops: &mut Vec<Operation>, carry: &Option<bool>)
    ensures
        match *carry { Some(c) => exists|f: Operand| is_flag(f, "C"@) && final(ops)@ == old(ops)@.push(Operation::Move { destination: f, source: imm32(if c { 1 } else { 0 }) }), None => final(ops)@ == old(ops)@ },
{
    match carry {
        Some(c) => ops.push(op_mv(&flag("C"), &word(if *c { 1 } else { 0 }))),
        None => {},
    }
}

fn op_xor(destination: &Operand, operand1: &Operand, operand2: &Operand) -> (r: Operation)
    ensures
        r == (Operation::Xor { destination: *destination, operand1: *operand1, operand2: *operand2 }),
{
    Operation::Xor { destination: destination.clone(), operand1: operand1.clone(), operand2: operand2.clone() }
}

fn op_not(destination: &Operand, operand: &Operand) -> (r: Operation)
    ensures
        r == (Operation::Not { destination: *destination, operand: *operand }),
{
    Operation::Not { destination: destination.clone(), operand: operand.clone() }
}

/// The translation of a bitwise operation, a test, a shift by a register, a
/// subtraction with carry, a multiply accumulate or a division.
#[verifier::spinoff_prover]
#[verifier::rlimit(100)]
fn convert_logic(op: &V7Operation, in_it_block: bool) -> (r: Result<Vec<Operation>, ArchError>)
    ensures
        r is Err ==> r == Err::<Vec<Operation>, ArchError>(untranslated()),
        r is Ok <==> family_logic(*op) && translatable(*op, in_it_block),
        r matches Ok(ops) ==> translation_of(*op, in_it_block, ops@),
{
    let result: Operand = loc("result");
    let shifted: Operand = loc("shifted");
    let shift_n: Operand = loc("shift_n");
    let mut ops: Vec<Operation> = Vec::new();
    match op {
        V7Operation::EorImmediate { s, rd, rn, imm, carry } => {
            let set: bool = match s { Some(b) => *b, None => false };
            let rn_op: Operand = reg(rn);
            let rd_op: Operand = match rd { Some(d) => reg(d), None => rn_op.clone() };
            let c_op: Operand = flag("C");
            ops.push(op_xor(&result, &rn_op, &word(*imm)));
            ops.push(op_mv(&rd_op, &result));
            if set {
                flags_nz(&mut ops, &result);
                carry_into(&mut ops, &c_op, carry);
            }
            proof {
                assert(ops@ =~= bitwise_imm_seq(
                    Operation::Xor { destination: result, operand1: rn_op, operand2: imm32(*imm) },
                    result,
                    rd_op,
                    c_op,
                    option_set(*s),
                    *carry,
                ));
                assert(translation_of(*op, in_it_block, ops@));
            }
        },
        V7Operation::EorRegister { s, rd, rn, rm, shift } => {
            let s: bool = local_unwrap(*s, in_it_block);
            let rn_op: Operand = reg(rn);
            let rd_op: Operand = match rd { Some(d) => reg(d), None => rn_op.clone() };
            let rm_op: Operand = reg(rm);
            shift_into(&mut ops, &shifted, &rm_op, *shift, if s { Some(&rm_op) } else { None })?;
            ops.push(op_xor(&result, &rn_op, &shifted));
            if s {
                flags_nz(&mut ops, &result);
            }
            ops.push(op_mv(&rd_op, &result));
            proof {
                assert(ops@ =~= logic_reg_seq(
                    Operation::Xor { destination: result, operand1: rn_op, operand2: shifted },
                    result,
                    shifted,
                    rd_op,
                    rm_op,
                    *shift,
                    s,
                    s,
                ));
                assert(translation_of(*op, in_it_block, ops@));
            }
        },
        V7Operation::MvnImmediate { s, rd, carry, imm } => {
            let set: bool = match s { Some(b) => *b, None => false };
            let rd_op: Operand = reg(rd);
            let c_op: Operand = flag("C");
            ops.push(op_not(&result, &word(*imm)));
            ops.push(op_mv(&rd_op, &result));
            if set {
                flags_nz(&mut ops, &result);
                carry_into(&mut ops, &c_op, carry);
            }
            proof {
                assert(ops@ =~= bitwise_imm_seq(
                    Operation::Not { destination: result, operand: imm32(*imm) },
                    result,
                    rd_op,
                    c_op,
                    option_set(*s),
                    *carry,
                ));
                assert(translation_of(*op, in_it_block, ops@));
            }
        },
        V7Operation::MvnRegister { s, rd, rm, shift } => {
            let s: bool = local_unwrap(*s, in_it_block);
            let rd_op: Operand = reg(rd);
            let rm_op: Operand = reg(rm);
            shift_into(&mut ops, &shifted, &rm_op, *shift, if s { Some(&rm_op) } else { None })?;
            ops.push(op_not(&rd_op, &shifted));
            if s {
                flags_nz(&mut ops, &rd_op);
            }
        },
        V7Operation::OrnImmediate { s, rd, rn, carry, imm } => {
            let s: bool = match s { Some(b) => *b, None => false };
            let rn_op: Operand = reg(rn);
            let rd_op: Operand = match rd { Some(d) => reg(d), None => rn_op.clone() };
            let n_imm: Operand = loc("n_imm");
            ops.push(op_not(&n_imm, &word(*imm)));
            ops.push(op_or(&result, &rn_op, &n_imm));
            ops.push(op_mv(&rd_op, &result));
            if s {
                flags_nz(&mut ops, &result);
                carry_of_immediate(&mut ops, carry);
            }
        },
        V7Operation::OrnRegister { s, rd, rn, rm, shift } => {
            let s: bool = match s { Some(b) => *b, None => false };
            let rn_op: Operand = reg(rn);
            let rd_op: Operand = match rd { Some(d) => reg(d), None => rn_op.clone() };
            let rm_op: Operand = reg(rm);
            shift_into(&mut ops, &shifted, &rm_op, *shift, if s { Some(&rm_op) } else { None })?;
            ops.push(op_not(&shifted, &shifted));
            ops.push(op_or(&rd_op, &rn_op, &shifted));
            if s {
                flags_nz(&mut ops, &rd_op);
            }
        },
        V7Operation::OrrImmediate { s, rd, rn, carry, imm } => {
            let set: bool = match s { Some(b) => *b, None => false };
            let rn_op: Operand = reg(rn);
            let rd_op: Operand = match rd { Some(d) => reg(d), None => rn_op.clone() };
            let c_op: Operand = flag("C");
            ops.push(op_or(&result, &rn_op, &word(*imm)));
            ops.push(op_mv(&rd_op, &result));
            if set {
                flags_nz(&mut ops, &result);
                carry_into(&mut ops, &c_op, carry);
            }
            proof {
                assert(ops@ =~= bitwise_imm_seq(
                    Operation::Or { destination: result, operand1: rn_op, operand2: imm32(*imm) },
                    result,
                    rd_op,
                    c_op,
                    option_set(*s),
                    *carry,
                ));
                assert(translation_of(*op, in_it_block, ops@));
            }
        },
        V7Operation::OrrRegister { s, rd, rn, rm, shift } => {
            let s: bool = local_unwrap(*s, in_it_block);
            let rn_op: Operand = reg(rn);
            let rd_op: Operand = match rd { Some(d) => reg(d), None => rn_op.clone() };
            let rm_op: Operand = reg(rm);
            shift_into(&mut ops, &shifted, &rm_op, *shift, if s { Some(&rm_op) } else { None })?;
            ops.push(op_or(&rd_op, &rn_op, &shifted));
            if s {
                flags_nz(&mut ops, &rd_op);
            }
            proof {
                assert(ops@ =~= orr_reg_seq(shifted, rd_op, rn_op, rm_op, *shift, s));
                assert(translation_of(*op, in_it_block, ops@));
            }
        },
        V7Operation::TeqImmediate { rn, carry, imm } => {
            ops.push(op_xor(&result, &reg(rn), &word(*imm)));
            flags_nz(&mut ops, &result);
            carry_of_immediate(&mut ops, carry);
        },
        V7Operation::TeqRegister { rn, rm, shift } => {
            let rn_op: Operand = reg(rn);
            shift_into(&mut ops, &shifted, &reg(rm), *shift, Some(&rn_op))?;
            ops.push(op_xor(&result, &rn_op, &shifted));
            ops.push(Operation::SetZFlag(result.clone()));
            ops.push(Operation::SetNFlag(result.clone()));
        },
        V7Operation::TstImmediate { rn, carry, imm } => {
            ops.push(op_and(&result, &reg(rn), &word(*imm)));
            ops.push(Operation::SetZFlag(result.clone()));
            ops.push(Operation::SetNFlag(result.clone()));
            carry_of_immediate(&mut ops, carry);
        },
        V7Operation::TstRegister { rn, rm, shift } => {
            let rm_op: Operand = reg(rm);
            shift_into(&mut ops, &shifted, &rm_op, *shift, Some(&rm_op))?;
            ops.push(op_and(&result, &reg(rn), &shifted));
            flags_nz(&mut ops, &result);
        },
        V7Operation::CmnRegister { rn, rm, shift } => {
            let rn_op: Operand = reg(rn);
            shift_into(&mut ops, &shifted, &reg(rm), *shift, None)?;
            ops.push(op_add(&result, &rn_op, &shifted));
            flags_nzcv(&mut ops, &result, &rn_op, &shifted, false, false);
        },
        V7Operation::RsbRegister { s, rd, rn, rm, shift } => {
            let rn_op: Operand = reg(rn);
            let rd_op: Operand = match rd { Some(d) => reg(d), None => rn_op.clone() };
            let intermediate: Operand = loc("intermediate");
            let old_carry: Operand = loc("old_carry");
            shift_into(&mut ops, &shifted, &reg(rm), *shift, None)?;
            ops.push(op_mv(&old_carry, &flag("C")));
            ops.push(op_mv(&flag("C"), &word(1)));
            ops.push(op_not(&intermediate, &rn_op));
            ops.push(op_adc(&rd_op, &intermediate, &shifted));
            if *s == Some(true) {
                ops.push(Operation::SetZFlag(rd_op.clone()));
                ops.push(Operation::SetNFlag(rd_op.clone()));
                ops.push(Operation::SetCFlag { operand1: intermediate, operand2: shifted, sub: false, carry: true });
            } else {
                ops.push(op_mv(&flag("C"), &old_carry));
            }
        },
        V7Operation::SbcImmediate { s, rd, rn, imm } => {
            let s: bool = match s { Some(b) => *b, None => false };
            let rn_op: Operand = reg(rn);
            let rd_op: Operand = match rd { Some(d) => reg(d), None => rn_op.clone() };
            let imm_op: Operand = word(*imm);
            ops.push(op_not(&loc("intermediate"), &imm_op));
            ops.push(op_adc(&result, &rn_op, &imm_op));
            ops.push(op_mv(&rd_op, &result));
            if s {
                ops.push(Operation::SetZFlag(result.clone()));
                ops.push(Operation::SetNFlag(result.clone()));
                ops.push(Operation::SetCFlag { operand1: rn_op.clone(), operand2: imm_op.clone(), sub: false, carry: true });
                ops.push(Operation::SetVFlag { operand1: rn_op, operand2: imm_op, sub: false, carry: true });
            }
        },
        V7Operation::SbcRegister { s, rd, rn, rm, shift } => {
            let s: bool = local_unwrap(*s, in_it_block);
            let rn_op: Operand = reg(rn);
            let rd_op: Operand = match rd { Some(d) => reg(d), None => rn_op.clone() };
            let intermediate: Operand = loc("intermediate");
            shift_into(&mut ops, &shifted, &reg(rm), *shift, None)?;
            ops.push(op_not(&intermediate, &shifted));
            ops.push(op_adc(&result, &rn_op, &intermediate));
            ops.push(op_mv(&rd_op, &result));
            if s {
                ops.push(Operation::SetZFlag(result.clone()));
                ops.push(Operation::SetNFlag(result.clone()));
                ops.push(Operation::SetCFlag { operand1: rn_op.clone(), operand2: intermediate.clone(), sub: false, carry: true });
                ops.push(Operation::SetVFlag { operand1: rn_op, operand2: intermediate, sub: false, carry: true });
            }
        },
        V7Operation::LslRegister { s, rd, rn, rm } => {
            let s: bool = local_unwrap(*s, in_it_block);
            let rd_op: Operand = reg(rd);
            let rn_op: Operand = reg(rn);
            ops.push(op_and(&shift_n, &reg(rm), &word(0xff)));
            if s {
                ops.push(Operation::SetCFlagShiftLeft { operand: rn_op.clone(), shift: shift_n.clone() });
            }
            ops.push(Operation::Shift { destination: rd_op.clone(), operand: rn_op, shift_n: shift_n.clone(), shift_t: Shift::Lsl });
            if s {
                flags_nz(&mut ops, &rd_op);
            }
        },
        V7Operation::LsrRegister { s, rd, rn, rm } => {
            let s: bool = local_unwrap(*s, in_it_block);
            let rd_op: Operand = reg(rd);
            let rn_op: Operand = reg(rn);
            ops.push(op_and(&shift_n, &reg(rm), &word(0xff)));
            if s {
                ops.push(Operation::SetCFlagSrl { operand: rn_op.clone(), shift: shift_n.clone() });
            }
            ops.push(Operation::Shift { destination: rd_op.clone(), operand: rn_op, shift_n: shift_n.clone(), shift_t: Shift::Lsr });
            if s {
                flags_nz(&mut ops, &rd_op);
            }
        },
        V7Operation::RorImmediate { s, rd, rm, imm } => {
            let rd_op: Operand = reg(rd);
            ops.push(Operation::Sror { destination: rd_op.clone(), operand: reg(rm), shift: word(*imm) });
            if *s == Some(true) {
                ops.push(Operation::SetZFlag(rd_op.clone()));
                ops.push(Operation::SetNFlag(rd_op.clone()));
                ops.push(Operation::SetCFlagRor(rd_op));
            }
        },
        V7Operation::RorRegister { s, rd, rn, rm } => {
            let s: bool = local_unwrap(*s, in_it_block);
            let rd_op: Operand = reg(rd);
            ops.push(op_and(&shift_n, &reg(rm), &word(0xff)));
            ops.push(Operation::Sror { destination: rd_op.clone(), operand: reg(rn), shift: shift_n.clone() });
            if s {
                ops.push(Operation::SetZFlag(rd_op.clone()));
                ops.push(Operation::SetNFlag(rd_op.clone()));
                ops.push(Operation::SetCFlagRor(rd_op));
            }
        },
        V7Operation::Rrx { s, rd, rm } => {
            let rm_op: Operand = reg(rm);
            let lsb: Operand = loc("lsb");
            let msb: Operand = loc("msb");
            ops.push(op_and(&lsb, &rm_op, &word(1)));
            ops.push(Operation::Srl { destination: result.clone(), operand: rm_op, shift: word(1) });
            ops.push(Operation::ZeroExtend { destination: msb.clone(), operand: flag("C"), bits: 32 });
            ops.push(Operation::Sl { destination: msb.clone(), operand: msb.clone(), shift: word(31) });
            ops.push(op_and(&result, &result, &word(0x7fff_ffff)));
            ops.push(op_or(&result, &result, &msb));
            ops.push(op_mv(&reg(rd), &result));
            if *s == Some(true) {
                flags_nz(&mut ops, &result);
                ops.push(op_mv(&flag("C"), &lsb));
            }
        },
        V7Operation::Clz { rd, rm } => {
            ops.push(Operation::CountLeadingZeroes { destination: reg(rd), operand: reg(rm) });
        },
        V7Operation::Movt { rd, imm } => {
            let rd_op: Operand = reg(rd);
            let intermediate: Operand = loc("intermediate");
            let low: Operand = loc("low");
            ops.push(Operation::Sl { destination: intermediate.clone(), operand: word(*imm as u32), shift: word(16) });
            ops.push(op_and(&low, &rd_op, &word(0xffff)));
            ops.push(op_or(&rd_op, &intermediate, &low));
        },
        V7Operation::Mla { rd, rn, rm, ra } => {
            let rd_op: Operand = reg(rd);
            let rn_op: Operand = reg(rn);
            let rm_op: Operand = reg(rm);
            let ra_op: Operand = reg(ra);
            ops.push(Operation::Mul { destination: rd_op.clone(), operand1: rn_op.clone(), operand2: rm_op.clone() });
            ops.push(op_add(&rd_op, &rd_op, &ra_op));
            proof {
                assert(ops@ =~= seq![
                    Operation::Mul { destination: rd_op, operand1: rn_op, operand2: rm_op },
                    Operation::Add { destination: rd_op, operand1: rd_op, operand2: ra_op },
                ]);
                assert(is_named(rd_op, v7_register_name(*rd)) && is_named(rn_op, v7_register_name(*rn)) && is_named(
                    rm_op,
                    v7_register_name(*rm),
                ) && is_named(ra_op, v7_register_name(*ra)));
                assert(translation_of(*op, in_it_block, ops@));
            }
        },
        V7Operation::Mls { rd, rn, rm, ra } => {
            let rd_op: Operand = reg(rd);
            let rn_op: Operand = reg(rn);
            let rm_op: Operand = reg(rm);
            let ra_op: Operand = reg(ra);
            ops.push(Operation::Mul { destination: rd_op.clone(), operand1: rn_op.clone(), operand2: rm_op.clone() });
            ops.push(op_sub(&rd_op, &ra_op, &rd_op));
            proof {
                assert(ops@ =~= seq![
                    Operation::Mul { destination: rd_op, operand1: rn_op, operand2: rm_op },
                    Operation::Sub { destination: rd_op, operand1: ra_op, operand2: rd_op },
                ]);
                assert(is_named(rd_op, v7_register_name(*rd)) && is_named(rn_op, v7_register_name(*rn)) && is_named(
                    rm_op,
                    v7_register_name(*rm),
                ) && is_named(ra_op, v7_register_name(*ra)));
                assert(translation_of(*op, in_it_block, ops@));
            }
        },
        V7Operation::Sdiv { rd, rn, rm } => {
            let rn_op: Operand = reg(rn);
            let rd_op: Operand = match rd { Some(d) => reg(d), None => rn_op.clone() };
            let rm_op: Operand = reg(rm);
            ops.push(Operation::SDiv { destination: result.clone(), operand1: rn_op.clone(), operand2: rm_op.clone() });
            ops.push(op_mv(&rd_op, &result));
            proof {
                assert(ops@ =~= seq![
                    Operation::SDiv { destination: result, operand1: rn_op, operand2: rm_op },
                    Operation::Move { destination: rd_op, source: result },
                ]);
                assert(is_local(result, "result"@) && is_named(rd_op, rd_name(*rd, *rn)) && is_named(
                    rn_op,
                    v7_register_name(*rn),
                ) && is_named(rm_op, v7_register_name(*rm)));
                assert(translation_of(*op, in_it_block, ops@));
            }
        },
        V7Operation::Udiv { rd, rn, rm } => {
            let rn_op: Operand = reg(rn);
            let rd_op: Operand = match rd { Some(d) => reg(d), None => rn_op.clone() };
            let rm_op: Operand = reg(rm);
            ops.push(Operation::UDiv { destination: result.clone(), operand1: rn_op.clone(), operand2: rm_op.clone() });
            ops.push(op_mv(&rd_op, &result));
            proof {
                assert(ops@ =~= seq![
                    Operation::UDiv { destination: result, operand1: rn_op, operand2: rm_op },
                    Operation::Move { destination: rd_op, source: result },
                ]);
                assert(is_local(result, "result"@) && is_named(rd_op, rd_name(*rd, *rn)) && is_named(
                    rn_op,
                    v7_register_name(*rn),
                ) && is_named(rm_op, v7_register_name(*rm)));
                assert(translation_of(*op, in_it_block, ops@));
            }
        },
        _ => {
            return Err(ArchError::ImplementorStringError("operation without a translation"));
        },
    }
    Ok(ops)
}


/// The `n` lowest bits set, all of them from 32 on.
fn low_mask(n: u32) -> (r: u32)
    ensures
        r == low_mask_of(n),
{
    if n >= 32 {
        0xffff_ffff
    } else if n == 0 {
        proof {
            vstd::arithmetic::power2::lemma2_to64();
        }
        0
    } else {
        let m: u32 = crate::arch::arm::v7::mask_dyn(0, n - 1);
        assert(m as int == p(n as nat) - 1);
        m
    }
}

/// `destination = source<hi:lo>`: the bits `hi` down to `lo` of `source`,
/// moved down to the lowest bits.
fn field(ops: &mut Vec<Operation>, destination: &Operand, source: &Operand, hi: u32, lo: u32)
    requires
        lo <= hi < 32,
    ensures
        final(ops)@ == old(ops)@ + field_seq(*destination, *source, hi, lo),
{
    if lo > 0 {
        ops.push(Operation::Srl { destination: destination.clone(), operand: source.clone(), shift: word(lo) });
        ops.push(op_and(destination, destination, &word(low_mask(hi - lo + 1))));
    } else {
        ops.push(op_and(destination, source, &word(low_mask(hi + 1))));
    }
}

/// `destination = source` rotated right by `rotation` bits (modulo 32), as
/// a right and a left shift.
fn rotate(ops: &mut Vec<Operation>, destination: &Operand, source: &Operand, rotation: &Option<u32>)
    ensures
        rotation_of(*rotation) == 0 ==> final(ops)@ == old(ops)@.push(Operation::Move { destination: *destination, source: *source }),
        rotation_of(*rotation) != 0 ==> exists|h: Operand| is_local(h, "rotated_out"@) && final(ops)@ == old(ops)@ + seq![Operation::Sl { destination: h, operand: *source, shift: imm32((32 - rotation_of(*rotation)) as u32) }, Operation::Srl { destination: *destination, operand: *source, shift: imm32(rotation_of(*rotation)) }, Operation::Or { destination: *destination, operand1: *destination, operand2: h }],
        exists|h: Operand| #![trigger rotate_seq(*destination, *source, h, *rotation)] (rotation_of(*rotation) != 0 ==> is_local(h, "rotated_out"@)) && final(ops)@ == old(ops)@ + rotate_seq(*destination, *source, h, *rotation),
{
    let ghost start = ops@;
    let amount: u32 = match rotation { Some(r) => *r % 32, None => 0 };
    if amount == 0 {
        ops.push(op_mv(destination, source));
    } else {
        let high: Operand = loc("rotated_out");
        ops.push(Operation::Sl { destination: high.clone(), operand: source.clone(), shift: word(32 - amount) });
        ops.push(Operation::Srl { destination: destination.clone(), operand: source.clone(), shift: word(amount) });
        ops.push(op_or(destination, destination, &high));
        assert(ops@ =~= start + seq![Operation::Sl { destination: high, operand: *source, shift: imm32((32 - amount) as u32) }, Operation::Srl { destination: *destination, operand: *source, shift: imm32(amount) }, Operation::Or { destination: *destination, operand1: *destination, operand2: high }]);
        assert(ops@ =~= start + rotate_seq(*destination, *source, high, *rotation));
    }
    if amount == 0 {
        assert(ops@ =~= start + rotate_seq(*destination, *source, *destination, *rotation));
    }
}

fn sign_extend(destination: &Operand, operand: &Operand, bits: u32) -> (r: Operation)
    ensures
        r == (Operation::SignExtend { destination: *destination, operand: *operand, bits }),
{
    Operation::SignExtend { destination: destination.clone(), operand: operand.clone(), bits }
}

/// The translation of a bit field extraction, an extension, a byte reversal
/// or a packing of half words.
fn convert_extend(op: &V7Operation) -> (r: Result<Vec<Operation>, ArchError>)
    ensures
        r is Err ==> r == Err::<Vec<Operation>, ArchError>(untranslated()),
        r is Ok <==> family_extend(*op) && translatable(*op, false),
        r matches Ok(ops) ==> translation_of(*op, false, ops@),
{
    let rotated: Operand = loc("rotated");
    let intermediate: Operand = loc("intermediate");
    let mut ops: Vec<Operation> = Vec::new();
    match op {
        V7Operation::Sbfx { rd, rn, lsb, width } => {
            if !(1 <= *width && *width - 1 < 32 && *lsb < 32 && *lsb <= u32::MAX - (*width - 1)) {
                return Err(ArchError::ImplementorStringError("operation without a translation"));
            }
            let low: u32 = if *width - 1 == 0 { 0 } else { low_mask(*width - 1) };
            let mask: u32 = low << *lsb;
            ops.push(op_and(&intermediate, &reg(rn), &word(mask)));
            ops.push(Operation::Srl { destination: intermediate.clone(), operand: intermediate.clone(), shift: word(*lsb) });
            ops.push(sign_extend(&reg(rd), &intermediate, *width));
        },
        V7Operation::Ubfx { rd, rn, lsb, width } => {
            if !(1 <= *width && *lsb <= u32::MAX - (*width - 1)) {
                return Err(ArchError::ImplementorStringError("operation without a translation"));
            }
            let rd_op: Operand = reg(rd);
            let rn_op: Operand = reg(rn);
            ops.push(Operation::Srl { destination: rd_op.clone(), operand: rn_op.clone(), shift: word(*lsb) });
            ops.push(op_and(&rd_op, &rd_op, &word(low_mask(*width))));
            proof {
                assert(ops@ =~= seq![
                    Operation::Srl { destination: rd_op, operand: rn_op, shift: imm32(*lsb) },
                    Operation::And { destination: rd_op, operand1: rd_op, operand2: imm32(low_mask_of(*width)) },
                ]);
                assert(translation_of(*op, false, ops@));
            }
        },
        V7Operation::Sxtab { rd, rn, rm, rotation } => {
            let rn_op: Operand = reg(rn);
            let rd_op: Operand = match rd { Some(d) => reg(d), None => rn_op.clone() };
            let masked: Operand = loc("masked");
            rotate(&mut ops, &rotated, &reg(rm), rotation);
            ops.push(op_and(&masked, &rotated, &word(0xff)));
            ops.push(sign_extend(&masked, &masked, 8));
            ops.push(op_add(&rd_op, &rn_op, &masked));
        },
        V7Operation::Sxtab16 { rd, rn, rm, rotation } => {
            let rn_op: Operand = reg(rn);
            let rd_op: Operand = match rd { Some(d) => reg(d), None => rn_op.clone() };
            let low_byte: Operand = loc("rotated_lsbyte");
            let high: Operand = loc("msh_intermediate");
            let result: Operand = loc("intemediate_result");
            rotate(&mut ops, &rotated, &reg(rm), rotation);
            ops.push(op_mv(&rd_op, &word(0)));
            ops.push(op_and(&low_byte, &rotated, &word(0xff)));
            ops.push(op_and(&rd_op, &rn_op, &word(0xffff)));
            ops.push(sign_extend(&low_byte, &low_byte, 8));
            ops.push(op_add(&rd_op, &rd_op, &low_byte));
            ops.push(op_and(&rd_op, &rd_op, &word(0xffff)));
            ops.push(Operation::Srl { destination: high.clone(), operand: rn_op, shift: word(16) });
            ops.push(Operation::Srl { destination: rotated.clone(), operand: rotated.clone(), shift: word(16) });
            ops.push(op_and(&rotated, &rotated, &word(0xff)));
            ops.push(sign_extend(&rotated, &rotated, 8));
            ops.push(op_add(&result, &high, &rotated));
            ops.push(op_and(&result, &result, &word(0xffff)));
            ops.push(Operation::Sl { destination: result.clone(), operand: result.clone(), shift: word(16) });
            ops.push(op_or(&rd_op, &rd_op, &result));
        },
        V7Operation::Sxtah { rd, rn, rm, rotation } => {
            let rn_op: Operand = reg(rn);
            let rd_op: Operand = match rd { Some(d) => reg(d), None => rn_op.clone() };
            rotate(&mut ops, &rotated, &reg(rm), rotation);
            ops.push(op_and(&rotated, &rotated, &word(0xffff)));
            ops.push(sign_extend(&rotated, &rotated, 16));
            ops.push(op_add(&rd_op, &rn_op, &rotated));
        },
        V7Operation::Sxtb { rd, rm, rotation } => {
            let rm_op: Operand = reg(rm);
            let rd_op: Operand = reg(rd);
            rotate(&mut ops, &rotated, &rm_op, rotation);
            let ghost mid = ops@;
            ops.push(op_and(&rotated, &rotated, &word(0xff)));
            ops.push(sign_extend(&rd_op, &rotated, 8));
            proof {
                let h = choose|h: Operand| #![trigger rotate_seq(rotated, rm_op, h, *rotation)] (rotation_of(*rotation) != 0
                    ==> is_local(h, "rotated_out"@)) && mid == Seq::<Operation>::empty() + rotate_seq(rotated, rm_op, h, *rotation);
                assert(ops@ =~= rotate_seq(rotated, rm_op, h, *rotation) + seq![
                    Operation::And { destination: rotated, operand1: rotated, operand2: imm32(0xff) },
                    Operation::SignExtend { destination: rd_op, operand: rotated, bits: 8 },
                ]);
                assert(rotation_locals(rotated, h, *rotation));
                assert(translation_of(*op, false, ops@));
            }
        },
        V7Operation::Sxtb16 { rd, rm, rotation } => {
            let rm_op: Operand = reg(rm);
            let rd_op: Operand = match rd { Some(d) => reg(d), None => rm_op.clone() };
            let low_byte: Operand = loc("lsbyte");
            let high_byte: Operand = loc("msbyte");
            rotate(&mut ops, &rotated, &rm_op, rotation);
            ops.push(op_and(&low_byte, &rotated, &word(0xff)));
            ops.push(sign_extend(&low_byte, &low_byte, 16));
            ops.push(op_and(&rd_op, &low_byte, &word(0xffff)));
            ops.push(Operation::Srl { destination: high_byte.clone(), operand: rotated.clone(), shift: word(16) });
            ops.push(op_and(&high_byte, &high_byte, &word(0xff)));
            ops.push(sign_extend(&high_byte, &high_byte, 16));
            ops.push(op_and(&high_byte, &high_byte, &word(0xffff)));
            ops.push(Operation::Sl { destination: high_byte.clone(), operand: high_byte.clone(), shift: word(16) });
            ops.push(op_or(&rd_op, &rd_op, &high_byte));
        },
        V7Operation::Sxth { rd, rm, rotation } => {
            let rm_op: Operand = reg(rm);
            let rd_op: Operand = reg(rd);
            rotate(&mut ops, &rotated, &rm_op, rotation);
            let ghost mid = ops@;
            ops.push(op_and(&rotated, &rotated, &word(0xffff)));
            ops.push(sign_extend(&rd_op, &rotated, 16));
            proof {
                let h = choose|h: Operand| #![trigger rotate_seq(rotated, rm_op, h, *rotation)] (rotation_of(*rotation) != 0
                    ==> is_local(h, "rotated_out"@)) && mid == Seq::<Operation>::empty() + rotate_seq(rotated, rm_op, h, *rotation);
                assert(ops@ =~= rotate_seq(rotated, rm_op, h, *rotation) + seq![
                    Operation::And { destination: rotated, operand1: rotated, operand2: imm32(0xffff) },
                    Operation::SignExtend { destination: rd_op, operand: rotated, bits: 16 },
                ]);
                assert(rotation_locals(rotated, h, *rotation));
                assert(translation_of(*op, false, ops@));
            }
        },
        V7Operation::Uxtab { rd, rn, rm, rotation } => {
            let rn_op: Operand = reg(rn);
            let rd_op: Operand = match rd { Some(d) => reg(d), None => rn_op.clone() };
            rotate(&mut ops, &rotated, &reg(rm), rotation);
            field(&mut ops, &intermediate, &rotated, 7, 0);
            ops.push(op_add(&rd_op, &rn_op, &intermediate));
        },
        V7Operation::Uxtab16 { rd, rn, rm, rotation } => {
            let rn_op: Operand = reg(rn);
            let rd_op: Operand = match rd { Some(d) => reg(d), None => rn_op.clone() };
            let part: Operand = loc("part");
            rotate(&mut ops, &rotated, &reg(rm), rotation);
            field(&mut ops, &part, &rn_op, 15, 0);
            field(&mut ops, &intermediate, &rotated, 7, 0);
            ops.push(op_add(&rd_op, &part, &intermediate));
            field(&mut ops, &part, &rn_op, 31, 16);
            field(&mut ops, &intermediate, &rotated, 23, 16);
            ops.push(op_add(&intermediate, &part, &intermediate));
            field(&mut ops, &intermediate, &intermediate, 15, 0);
            ops.push(Operation::Sl { destination: intermediate.clone(), operand: intermediate.clone(), shift: word(16) });
            field(&mut ops, &rd_op, &rd_op, 15, 0);
            ops.push(op_or(&rd_op, &rd_op, &intermediate));
        },
        V7Operation::Uxtah { rd, rn, rm, rotation } => {
            let rn_op: Operand = reg(rn);
            let rd_op: Operand = match rd { Some(d) => reg(d), None => rn_op.clone() };
            rotate(&mut ops, &rotated, &reg(rm), rotation);
            field(&mut ops, &intermediate, &rotated, 15, 0);
            ops.push(op_add(&rd_op, &rn_op, &intermediate));
        },
        V7Operation::Uxtb { rd, rm, rotation } => {
            let rm_op: Operand = reg(rm);
            let rd_op: Operand = reg(rd);
            rotate(&mut ops, &rotated, &rm_op, rotation);
            let ghost mid = ops@;
            field(&mut ops, &rd_op, &rotated, 7, 0);
            proof {
                let h = choose|h: Operand| #![trigger rotate_seq(rotated, rm_op, h, *rotation)] (rotation_of(*rotation) != 0
                    ==> is_local(h, "rotated_out"@)) && mid == Seq::<Operation>::empty() + rotate_seq(rotated, rm_op, h, *rotation);
                assert(ops@ =~= rotate_seq(rotated, rm_op, h, *rotation) + field_seq(rd_op, rotated, 7, 0));
                assert(rotation_locals(rotated, h, *rotation));
                assert(translation_of(*op, false, ops@));
            }
        },
        V7Operation::Uxtb16 { rd, rm, rotation } => {
            let rm_op: Operand = reg(rm);
            let rd_op: Operand = match rd { Some(d) => reg(d), None => rm_op.clone() };
            rotate(&mut ops, &rotated, &rm_op, rotation);
            field(&mut ops, &rd_op, &rotated, 7, 0);
            field(&mut ops, &rotated, &rotated, 23, 16);
            ops.push(Operation::Sl { destination: rotated.clone(), operand: rotated.clone(), shift: word(16) });
            ops.push(op_or(&rd_op, &rd_op, &rotated));
        },
        V7Operation::Rev { rd, rm } => {
            let rd_op: Operand = reg(rd);
            let rm_op: Operand = reg(rm);
            let b0: Operand = loc("int1");
            let b1: Operand = loc("int2");
            let b2: Operand = loc("int3");
            let b3: Operand = loc("int4");
            ops.push(op_and(&b0, &rm_op, &word(0xff)));
            ops.push(op_and(&b1, &rm_op, &word(0xff00)));
            ops.push(op_and(&b2, &rm_op, &word(0xff_0000)));
            ops.push(op_and(&b3, &rm_op, &word(0xff00_0000)));
            ops.push(Operation::Sl { destination: b0.clone(), operand: b0.clone(), shift: word(24) });
            ops.push(Operation::Sl { destination: b1.clone(), operand: b1.clone(), shift: word(8) });
            ops.push(Operation::Srl { destination: b2.clone(), operand: b2.clone(), shift: word(8) });
            ops.push(Operation::Srl { destination: b3.clone(), operand: b3.clone(), shift: word(24) });
            ops.push(op_mv(&rd_op, &word(0)));
            ops.push(op_or(&rd_op, &rd_op, &b0));
            ops.push(op_or(&rd_op, &rd_op, &b1));
            ops.push(op_or(&rd_op, &rd_op, &b2));
            ops.push(op_or(&rd_op, &rd_op, &b3));
            proof {
                let b = seq![b0, b1, b2, b3];
                assert(ops@ =~= reverse_seq(
                    rd_op,
                    rm_op,
                    b,
                    seq![0xffu32, 0xff00u32, 0xff_0000u32, 0xff00_0000u32],
                    seq![24u32, 8u32, 8u32, 24u32],
                    seq![true, true, false, false],
                ));
                assert(reverse_locals(b));
                assert(translation_of(*op, false, ops@));
            }
        },
        V7Operation::Rev16 { rd, rm } => {
            let rd_op: Operand = reg(rd);
            let rm_op: Operand = reg(rm);
            let b0: Operand = loc("int1");
            let b1: Operand = loc("int2");
            let b2: Operand = loc("int3");
            let b3: Operand = loc("int4");
            ops.push(op_and(&b0, &rm_op, &word(0xff)));
            ops.push(op_and(&b1, &rm_op, &word(0xff00)));
            ops.push(op_and(&b2, &rm_op, &word(0xff_0000)));
            ops.push(op_and(&b3, &rm_op, &word(0xff00_0000)));
            ops.push(Operation::Sl { destination: b0.clone(), operand: b0.clone(), shift: word(8) });
            ops.push(Operation::Srl { destination: b1.clone(), operand: b1.clone(), shift: word(8) });
            ops.push(Operation::Sl { destination: b2.clone(), operand: b2.clone(), shift: word(8) });
            ops.push(Operation::Srl { destination: b3.clone(), operand: b3.clone(), shift: word(8) });
            ops.push(op_mv(&rd_op, &word(0)));
            ops.push(op_or(&rd_op, &rd_op, &b0));
            ops.push(op_or(&rd_op, &rd_op, &b1));
            ops.push(op_or(&rd_op, &rd_op, &b2));
            ops.push(op_or(&rd_op, &rd_op, &b3));
            proof {
                let b = seq![b0, b1, b2, b3];
                assert(ops@ =~= reverse_seq(
                    rd_op,
                    rm_op,
                    b,
                    seq![0xffu32, 0xff00u32, 0xff_0000u32, 0xff00_0000u32],
                    seq![8u32, 8u32, 8u32, 8u32],
                    seq![true, false, true, false],
                ));
                assert(reverse_locals(b));
                assert(translation_of(*op, false, ops@));
            }
        },
        V7Operation::Revsh { rd, rm } => {
            let rd_op: Operand = reg(rd);
            let rm_op: Operand = reg(rm);
            let b0: Operand = loc("int1");
            let b1: Operand = loc("int2");
            ops.push(op_and(&b0, &rm_op, &word(0xff)));
            ops.push(op_and(&b1, &rm_op, &word(0xff00)));
            ops.push(Operation::Sl { destination: b0.clone(), operand: b0.clone(), shift: word(8) });
            ops.push(Operation::Srl { destination: b1.clone(), operand: b1.clone(), shift: word(8) });
            ops.push(op_mv(&rd_op, &word(0)));
            ops.push(sign_extend(&rd_op, &b0, 16));
            ops.push(op_or(&rd_op, &rd_op, &b1));
        },
        V7Operation::Rbit { rm, rd } => {
            let rd_op: Operand = reg(rd);
            let rm_op: Operand = reg(rm);
            let mut i: u32 = 0;
            while i < 31
                invariant
                    i <= 31,
                decreases 31 - i,
            {
                ops.push(op_mv(&intermediate, &word(0)));
                ops.push(op_and(&intermediate, &rm_op, &word(1u32 << i)));
                if 2 * i < 31 {
                    ops.push(Operation::Sl { destination: intermediate.clone(), operand: intermediate.clone(), shift: word(31 - 2 * i) });
                } else {
                    ops.push(Operation::Srl { destination: intermediate.clone(), operand: intermediate.clone(), shift: word(2 * i - 31) });
                }
                ops.push(op_or(&rd_op, &rd_op, &intermediate));
                i = i + 1;
            }
        },
        V7Operation::Pkh { tb, rd, rn, rm, shift } => {
            let rn_op: Operand = reg(rn);
            let rd_op: Operand = match rd { Some(d) => reg(d), None => rn_op.clone() };
            let shifted: Operand = loc("shifted");
            shift_into(&mut ops, &shifted, &reg(rm), *shift, None)?;
            let (high, low): (Operand, Operand) = if *tb { (rn_op, shifted) } else { (shifted, rn_op) };
            ops.push(op_and(&low, &low, &word(0xffff)));
            ops.push(op_and(&high, &high, &word(0xffff_0000)));
            ops.push(op_or(&rd_op, &high, &low));
        },
        _ => {
            return Err(ArchError::ImplementorStringError("operation without a translation"));
        },
    }
    Ok(ops)
}


/// `address = base -/+ imm` with `base` the word aligned `PC+`.
fn literal_address(ops: &mut Vec<Operation>, imm: u32, add_offset: bool)
    ensures
        exists|pc: Operand, base: Operand, address: Operand| #![trigger literal_seq(pc, base, address, imm, add_offset)] is_named(pc, "PC+"@) && is_local(base, "base"@) && is_local(address, "address"@) && final(ops)@ == old(ops)@ + literal_seq(pc, base, address, imm, add_offset),
{
    let ghost start = ops@;
    let base: Operand = loc("base");
    let address: Operand = loc("address");
    let imm_op: Operand = word(imm);
    let pc: Operand = named("PC+");
    ops.push(Operation::UDiv { destination: base.clone(), operand1: pc.clone(), operand2: word(4) });
    ops.push(Operation::Mul { destination: base.clone(), operand1: base.clone(), operand2: word(4) });
    ops.push(op_sub(&address, &base, &imm_op));
    if add_offset {
        ops.push(op_add(&address, &base, &imm_op));
    }
    assert(ops@ =~= start + literal_seq(pc, base, address, imm, add_offset));
}

/// `rt = ` the `bits` bits at the local `address`, zero extended.
fn load_unsigned(ops: &mut Vec<Operation>, rt: &Register, bits: u32)
    requires
        1 <= bits <= 32,
    ensures
        exists|t: Operand, m: Operand| is_named(t, v7_register_name(*rt)) && is_memory(m, "address"@, bits) && final(ops)@ == old(ops)@.push(Operation::ZeroExtend { destination: t, operand: m, bits }),
{
    let t: Operand = reg(rt);
    let m: Operand = memory("address", bits);
    ops.push(Operation::ZeroExtend { destination: t.clone(), operand: m.clone(), bits });
}

/// `rt = ` the `bits` bits at the local `address`, sign extended.
fn load_signed(ops: &mut Vec<Operation>, rt: &Register, bits: u32)
    requires
        1 <= bits <= 32,
    ensures
        exists|t: Operand, m: Operand| is_named(t, v7_register_name(*rt)) && is_memory(m, "address"@, bits) && final(ops)@ == old(ops)@.push(Operation::SignExtend { destination: t, operand: m, bits }),
{
    let t: Operand = reg(rt);
    let m: Operand = memory("address", bits);
    ops.push(Operation::SignExtend { destination: t.clone(), operand: m.clone(), bits });
}

/// The translation of a load of a byte, a half word or two words, and of an
/// unprivileged load.
fn convert_load(op: &V7Operation) -> (r: Result<Vec<Operation>, ArchError>)
    ensures
        r is Err ==> r == Err::<Vec<Operation>, ArchError>(untranslated()),
        r is Ok <==> family_load(*op) && translatable(*op, false),
{
    let address: Operand = loc("address");
    let offset: Operand = loc("offset");
    let offset_addr: Operand = loc("offset_addr");
    let mut ops: Vec<Operation> = Vec::new();
    match op {
        V7Operation::LdrbLiteral { add: add_offset, rt, imm } => {
            literal_address(&mut ops, *imm, *add_offset == Some(true));
            load_unsigned(&mut ops, rt, 8);
        },
        V7Operation::LdrbRegister { add: add_offset, rt, rn, rm, shift } => {
            let rn_op: Operand = reg(rn);
            let n: u32 = match shift { Some(sh) => sh.shift_n as u32, None => 0 };
            ops.push(Operation::Sl { destination: offset.clone(), operand: reg(rm), shift: word(n) });
            ops.push(op_sub(&offset_addr, &rn_op, &offset));
            if *add_offset == Some(true) {
                ops.push(op_add(&offset_addr, &rn_op, &offset));
            }
            ops.push(op_mv(&address, &offset_addr));
            load_unsigned(&mut ops, rt, 8);
        },
        V7Operation::Ldrbt { rt, rn, imm } => {
            let imm: u32 = match imm { Some(i) => *i, None => 0 };
            ops.push(op_add(&address, &reg(rn), &word(imm)));
            load_unsigned(&mut ops, rt, 8);
        },
        V7Operation::LdrdImmediate { w, add: add_offset, index, rt, rt2, rn, imm } => {
            let rn_op: Operand = reg(rn);
            offset_address(&mut ops, &rn_op, &word(*imm), *add_offset == Some(true), *index == Some(true));
            ops.push(op_mv(&reg(rt), &memory("address", 32)));
            ops.push(op_add(&address, &address, &word(4)));
            ops.push(op_mv(&reg(rt2), &memory("address", 32)));
            if *w == Some(true) {
                ops.push(op_mv(&rn_op, &offset_addr));
            }
        },
        V7Operation::LdrdLiteral { w: _, add: add_offset, index: _, rt, rt2, imm } => {
            let imm_op: Operand = word(*imm);
            ops.push(op_sub(&address, &named("PC+"), &imm_op));
            if *add_offset == Some(true) {
                ops.push(op_add(&address, &named("PC+"), &imm_op));
            }
            ops.push(op_mv(&reg(rt), &memory("address", 32)));
            ops.push(op_add(&address, &address, &word(4)));
            ops.push(op_mv(&reg(rt2), &memory("address", 32)));
        },
        V7Operation::LdrhLiteral { add: add_offset, rt, imm } => {
            literal_address(&mut ops, *imm, *add_offset == Some(true));
            load_unsigned(&mut ops, rt, 16);
        },
        V7Operation::LdrhRegister { rt, rn, rm, shift } => {
            shift_into(&mut ops, &offset, &reg(rm), *shift, None)?;
            ops.push(op_add(&offset_addr, &reg(rn), &offset));
            ops.push(op_mv(&address, &offset_addr));
            load_unsigned(&mut ops, rt, 16);
        },
        V7Operation::Ldrht { rt, rn, imm } => {
            let imm: u32 = match imm { Some(i) => *i, None => 0 };
            ops.push(op_add(&address, &reg(rn), &word(imm)));
            load_unsigned(&mut ops, rt, 16);
        },
        V7Operation::Ldrt { rt, rn, imm } => {
            let imm: u32 = match imm { Some(i) => *i, None => 0 };
            ops.push(op_add(&address, &reg(rn), &word(imm)));
            ops.push(op_mv(&reg(rt), &memory("address", 32)));
        },
        V7Operation::LdrsbImmediate { add: add_offset, index, wback, rt, rn, imm } => {
            let rn_op: Operand = reg(rn);
            let imm: u32 = match imm { Some(i) => *i, None => 0 };
            offset_address(&mut ops, &rn_op, &word(imm), *add_offset, *index);
            load_signed(&mut ops, rt, 8);
            if *wback {
                ops.push(op_mv(&rn_op, &offset_addr));
            }
        },
        V7Operation::LdrsbLiteral { add: add_offset, rt, imm } => {
            literal_address(&mut ops, *imm, *add_offset);
            load_signed(&mut ops, rt, 8);
        },
        V7Operation::LdrsbRegister { rt, rn, rm, shift } => {
            shift_into(&mut ops, &offset, &reg(rm), *shift, None)?;
            ops.push(op_add(&address, &reg(rn), &offset));
            load_signed(&mut ops, rt, 8);
        },
        V7Operation::Ldrsbt { rt, rn, imm } => {
            ops.push(op_add(&address, &reg(rn), &word(*imm)));
            load_signed(&mut ops, rt, 8);
        },
        V7Operation::LdrshImmediate { add: add_offset, index, wback, rt, rn, imm } => {
            let rn_op: Operand = reg(rn);
            let imm_op: Operand = word(match imm { Some(i) => *i, None => 0 });
            let offset_address: Operand = loc("offset_address");
            if *add_offset {
                ops.push(op_add(&offset_address, &rn_op, &imm_op));
            } else {
                ops.push(op_sub(&offset_address, &rn_op, &imm_op));
            }
            if *index {
                ops.push(op_mv(&address, &offset_address));
            } else {
                ops.push(op_mv(&address, &rn_op));
            }
            if *wback {
                ops.push(op_mv(&rn_op, &offset_address));
            }
            load_signed(&mut ops, rt, 16);
        },
        V7Operation::LdrshLiteral { add: add_offset, rt, imm } => {
            literal_address(&mut ops, *imm, *add_offset);
            load_signed(&mut ops, rt, 16);
        },
        V7Operation::LdrshRegister { rt, rn, rm, shift } => {
            let rt_op: Operand = reg(rt);
            let offset_address: Operand = loc("offset_address");
            shift_into(&mut ops, &offset, &reg(rm), *shift, None)?;
            ops.push(op_add(&offset_address, &reg(rn), &offset));
            ops.push(op_mv(&address, &offset_address));
            ops.push(op_mv(&rt_op, &memory("address", 16)));
            ops.push(sign_extend(&rt_op, &rt_op, 16));
        },
        V7Operation::Ldrsht { rt, rn, imm } => {
            let imm: u32 = match imm { Some(i) => *i, None => 0 };
            ops.push(op_add(&address, &reg(rn), &word(imm)));
            load_signed(&mut ops, rt, 16);
        },
        _ => {
            return Err(ArchError::ImplementorStringError("operation without a translation"));
        },
    }
    Ok(ops)
}


/// Whether `registers` holds `r`.
fn holds(registers: &Vec<Register>, r: Register) -> (b: bool)
    ensures
        b == registers@.contains(r),
{
    let mut i: usize = 0;
    while i < registers.len()
        invariant
            i <= registers@.len(),
            forall|j: int| 0 <= j < i ==> registers@[j] != r,
        decreases registers.len() - i,
    {
        if registers[i] == r {
            return true;
        }
        i = i + 1;
    }
    false
}

/// Loads the registers of a load multiple from the words from the local
/// `address` on, in the order given; a load into the program counter jumps
/// to the word after the others, with its lowest bit cleared.
fn load_multiple(ops: &mut Vec<Operation>, registers: &Vec<Register>)
    ensures
        exists|k: int| old(ops)@.len() <= k <= final(ops)@.len() && final(ops)@.subrange(0, old(ops)@.len() as int) == old(ops)@ && #[trigger] loads(final(ops)@.subrange(old(ops)@.len() as int, k), registers@) && (registers@.contains(Register::PC) ==> jump_tail(final(ops)@.subrange(k, final(ops)@.len() as int))) && (!registers@.contains(Register::PC) ==> k == final(ops)@.len()),
{
    let ghost start = ops@;
    let address: Operand = loc("address");
    let mut jump: bool = false;
    let mut i: usize = 0;
    while i < registers.len()
        invariant
            i <= registers@.len(),
            is_local(address, "address"@),
            ops@.len() >= start.len(),
            ops@.subrange(0, start.len() as int) == start,
            loads(ops@.subrange(start.len() as int, ops@.len() as int), registers@.take(i as int)),
            jump == registers@.take(i as int).contains(Register::PC),
        decreases registers.len() - i,
    {
        let ghost before = ops@;
        proof {
            assert(registers@.take(i as int + 1).drop_last() =~= registers@.take(i as int));
            assert(registers@.take(i as int + 1).last() == registers@[i as int]);
            assert(registers@.take(i as int + 1).contains(Register::PC) == (registers@.take(i as int).contains(Register::PC)
                || registers@[i as int] == Register::PC)) by {
                if registers@[i as int] == Register::PC {
                    assert(registers@.take(i as int + 1)[i as int] == Register::PC);
                }
                if registers@.take(i as int + 1).contains(Register::PC) {
                    let j = choose|j: int| 0 <= j < i as int + 1 && #[trigger] registers@.take(i as int + 1)[j] == Register::PC;
                    if j < i {
                        assert(registers@.take(i as int)[j] == Register::PC);
                    }
                }
                if registers@.take(i as int).contains(Register::PC) {
                    let j = choose|j: int| 0 <= j < i as int && #[trigger] registers@.take(i as int)[j] == Register::PC;
                    assert(registers@.take(i as int + 1)[j] == Register::PC);
                }
            }
        }
        if registers[i] == Register::PC {
            jump = true;
        } else {
            let t: Operand = reg(&registers[i]);
            let m: Operand = memory("address", 32);
            ops.push(op_mv(&t, &m));
            ops.push(op_add(&address, &address, &word(4)));
            proof {
                assert(ops@.subrange(0, start.len() as int) =~= before.subrange(0, start.len() as int));
                let added = ops@.subrange(start.len() as int, ops@.len() as int);
                assert(added.subrange(0, added.len() - 2) =~= before.subrange(start.len() as int, before.len() as int));
                assert(added[added.len() - 2] == ops@[ops@.len() - 2]);
                assert(added[added.len() - 1] == ops@[ops@.len() - 1]);
            }
        }
        i = i + 1;
    }
    proof {
        assert(registers@.take(registers@.len() as int) =~= registers@);
    }
    let ghost k: int = ops@.len() as int;
    let ghost mid = ops@;
    proof {
        assert(loads(mid.subrange(start.len() as int, k), registers@));
    }
    if jump {
        let target: Operand = loc("target");
        let m: Operand = memory("address", 32);
        ops.push(op_mv(&target, &m));
        clear_low_bit(ops, &target);
        ops.push(Operation::ConditionalJump { destination: target.clone(), condition: Condition::AL });
        proof {
            assert(ops@.subrange(0, start.len() as int) =~= start);
            assert(ops@.subrange(start.len() as int, k) =~= mid.subrange(start.len() as int, k));
            assert(jump_tail(ops@.subrange(k, ops@.len() as int)));
        }
    } else {
        proof {
            assert(ops@.subrange(start.len() as int, k) =~= mid.subrange(start.len() as int, k));
        }
    }
}

/// Stores the registers of a store multiple to the words from the local
/// `address` on, in the order given.
fn store_multiple(ops: &mut Vec<Operation>, registers: &Vec<Register>)
    ensures
        final(ops)@.len() == old(ops)@.len() + 2 * registers@.len(),
        final(ops)@.subrange(0, old(ops)@.len() as int) == old(ops)@,
        forall|i: int| 0 <= i < registers@.len() ==> store_pair(final(ops)@[old(ops)@.len() + 2 * i], final(ops)@[old(ops)@.len() + 2 * i + 1], #[trigger] registers@[i]),
{
    let ghost start = ops@;
    let address: Operand = loc("address");
    let mut i: usize = 0;
    while i < registers.len()
        invariant
            i <= registers@.len(),
            is_local(address, "address"@),
            ops@.len() == start.len() + 2 * i,
            ops@.subrange(0, start.len() as int) == start,
            forall|j: int| 0 <= j < i ==> store_pair(ops@[start.len() + 2 * j], ops@[start.len() + 2 * j + 1], #[trigger] registers@[j]),
        decreases registers.len() - i,
    {
        let ghost before = ops@;
        let m: Operand = memory("address", 32);
        let t: Operand = reg(&registers[i]);
        ops.push(op_mv(&m, &t));
        ops.push(op_add(&address, &address, &word(4)));
        proof {
            assert(ops@.subrange(0, start.len() as int) =~= before.subrange(0, start.len() as int));
            assert forall|j: int| 0 <= j < i + 1 implies store_pair(ops@[start.len() + 2 * j], ops@[start.len() + 2 * j + 1], #[trigger] registers@[j]) by {
                if j < i {
                    assert(ops@[start.len() + 2 * j] == before[start.len() + 2 * j]);
                    assert(ops@[start.len() + 2 * j + 1] == before[start.len() + 2 * j + 1]);
                }
            }
        }
        i = i + 1;
    }
}

/// The translation of a store by register, of two words, exclusive or
/// unprivileged, of a load or store of several registers, and of a
/// subtraction of a register from the stack pointer.
fn convert_store(op: &V7Operation) -> (r: Result<Vec<Operation>, ArchError>)
    ensures
        r matches Ok(ops) ==> translation_of(*op, false, ops@),
        r is Err ==> r == Err::<Vec<Operation>, ArchError>(untranslated()),
        r is Ok <==> family_store(*op) && translatable(*op, false),
{
    let address: Operand = loc("address");
    let offset: Operand = loc("offset");
    let offset_addr: Operand = loc("offset_addr");
    let mut ops: Vec<Operation> = Vec::new();
    match op {
        V7Operation::StrRegister { rt, rn, rm, shift } => {
            let n: u32 = match shift { Some(sh) => sh.shift_n as u32, None => 0 };
            let rm_op: Operand = reg(rm);
            let rn_op: Operand = reg(rn);
            let rt_op: Operand = reg(rt);
            let m: Operand = memory("address", 32);
            ops.push(Operation::Sl { destination: offset.clone(), operand: rm_op.clone(), shift: word(n) });
            ops.push(op_add(&address, &rn_op, &offset));
            ops.push(op_mv(&m, &rt_op));
            proof {
                assert(ops@ =~= store_register_seq(offset, address, m, rn_op, rm_op, rt_op, steps_of(*shift)));
                assert(translation_of(*op, false, ops@));
            }
        },
        V7Operation::StrbRegister { rt, rn, rm, shift } => {
            let n: u32 = match shift { Some(sh) => sh.shift_n as u32, None => 0 };
            let rm_op: Operand = reg(rm);
            let rn_op: Operand = reg(rn);
            let rt_op: Operand = reg(rt);
            let m: Operand = memory("address", 8);
            ops.push(Operation::Sl { destination: offset.clone(), operand: rm_op.clone(), shift: word(n) });
            ops.push(op_add(&address, &rn_op, &offset));
            ops.push(op_mv(&m, &rt_op));
            proof {
                assert(ops@ =~= store_register_seq(offset, address, m, rn_op, rm_op, rt_op, steps_of(*shift)));
                assert(translation_of(*op, false, ops@));
            }
        },
        V7Operation::StrhRegister { rt, rn, rm, shift } => {
            let n: u32 = match shift {
                Some(sh) => {
                    if sh.shift_t != Shift::Lsl {
                        return Err(ArchError::ImplementorStringError("operation without a translation"));
                    }
                    sh.shift_n as u32
                },
                None => 0,
            };
            ops.push(Operation::Sl { destination: offset.clone(), operand: reg(rm), shift: word(n) });
            ops.push(op_add(&address, &reg(rn), &offset));
            ops.push(op_mv(&memory("address", 16), &reg(rt)));
        },
        V7Operation::Strbt { rt, rn, imm } => {
            ops.push(op_add(&address, &reg(rn), &word(match imm { Some(i) => *i, None => 0 })));
            ops.push(op_mv(&memory("address", 8), &reg(rt)));
        },
        V7Operation::Strht { rt, rn, imm } => {
            ops.push(op_add(&address, &reg(rn), &word(match imm { Some(i) => *i, None => 0 })));
            ops.push(op_mv(&memory("address", 16), &reg(rt)));
        },
        V7Operation::Strt { rt, rn, imm } => {
            let data: Operand = loc("data");
            ops.push(op_add(&address, &reg(rn), &word(match imm { Some(i) => *i, None => 0 })));
            ops.push(op_mv(&data, &reg(rt)));
            ops.push(op_mv(&memory("address", 32), &data));
        },
        V7Operation::StrdImmediate { w, index, add: add_offset, rt, rt2, rn, imm } => {
            let rn_op: Operand = reg(rn);
            let imm: u32 = match imm { Some(i) => *i, None => 0 };
            offset_address(&mut ops, &rn_op, &word(imm), *add_offset, *index != Some(false));
            ops.push(op_mv(&memory("address", 32), &reg(rt)));
            ops.push(op_add(&address, &address, &word(4)));
            ops.push(op_mv(&memory("address", 32), &reg(rt2)));
            if *w == Some(true) {
                ops.push(op_mv(&rn_op, &offset_addr));
            }
        },
        V7Operation::Strex { rd, rt, rn, imm } => {
            ops.push(op_add(&address, &reg(rn), &word(match imm { Some(i) => *i, None => 0 })));
            ops.push(op_mv(&memory("address", 32), &reg(rt)));
            ops.push(op_mv(&reg(rd), &word(0)));
        },
        V7Operation::Strexb { rd, rt, rn } => {
            ops.push(op_mv(&address, &reg(rn)));
            ops.push(op_mv(&memory("address", 8), &reg(rt)));
            ops.push(op_mv(&reg(rd), &word(0)));
        },
        V7Operation::Strexh { rd, rt, rn } => {
            ops.push(op_mv(&address, &reg(rn)));
            ops.push(op_mv(&memory("address", 16), &reg(rt)));
            ops.push(op_mv(&reg(rd), &word(0)));
        },
        V7Operation::Ldm { w, rn, registers } => {
            if registers.len() > 16 {
                return Err(ArchError::ImplementorStringError("operation without a translation"));
            }
            let write_back: bool = *w == Some(true) && !holds(registers, *rn);
            let count: u32 = registers.len() as u32;
            let rn_op: Operand = reg(rn);
            ops.push(op_mv(&address, &rn_op));
            load_multiple(&mut ops, registers);
            if write_back {
                ops.push(op_add(&rn_op, &rn_op, &word(4 * count)));
            }
        },
        V7Operation::Ldmdb { w, rn, registers } => {
            if registers.len() > 16 {
                return Err(ArchError::ImplementorStringError("operation without a translation"));
            }
            let write_back: bool = *w == Some(true) && !holds(registers, *rn);
            let count: u32 = registers.len() as u32;
            let rn_op: Operand = reg(rn);
            ops.push(op_sub(&address, &rn_op, &word(4 * count)));
            load_multiple(&mut ops, registers);
            if write_back {
                ops.push(op_sub(&rn_op, &rn_op, &word(4 * count)));
            }
        },
        V7Operation::Stm { w, rn, registers } => {
            if registers.len() > 16 {
                return Err(ArchError::ImplementorStringError("operation without a translation"));
            }
            let count: u32 = registers.len() as u32;
            let rn_op: Operand = reg(rn);
            ops.push(op_mv(&address, &rn_op));
            let ghost head = ops@;
            store_multiple(&mut ops, registers);
            let ghost body = ops@;
            if *w == Some(true) {
                ops.push(op_add(&rn_op, &rn_op, &word(4 * count)));
            }
            proof {
                assert(ops@[0] == head[0]);
                assert forall|i: int| 0 <= i < registers@.len() implies store_pair(
                    ops@[1 + 2 * i],
                    ops@[2 + 2 * i],
                    #[trigger] registers@[i],
                ) by {
                    assert(ops@[1 + 2 * i] == body[1 + 2 * i]);
                    assert(ops@[2 + 2 * i] == body[2 + 2 * i]);
                    assert(store_pair(body[head.len() + 2 * i], body[head.len() + 2 * i + 1], registers@[i]));
                }
                assert(store_multiple_ok(registers@, rn_op, option_set(*w), false, ops@));
                assert(translation_of(*op, false, ops@));
            }
        },
        V7Operation::Stmdb { w, rn, registers } => {
            if registers.len() > 16 {
                return Err(ArchError::ImplementorStringError("operation without a translation"));
            }
            let count: u32 = registers.len() as u32;
            let rn_op: Operand = reg(rn);
            ops.push(op_sub(&address, &rn_op, &word(4 * count)));
            let ghost head = ops@;
            store_multiple(&mut ops, registers);
            let ghost body = ops@;
            if *w == Some(true) {
                ops.push(op_sub(&rn_op, &rn_op, &word(4 * count)));
            }
            proof {
                assert(ops@[0] == head[0]);
                assert forall|i: int| 0 <= i < registers@.len() implies store_pair(
                    ops@[1 + 2 * i],
                    ops@[2 + 2 * i],
                    #[trigger] registers@[i],
                ) by {
                    assert(ops@[1 + 2 * i] == body[1 + 2 * i]);
                    assert(ops@[2 + 2 * i] == body[2 + 2 * i]);
                    assert(store_pair(body[head.len() + 2 * i], body[head.len() + 2 * i + 1], registers@[i]));
                }
                assert(store_multiple_ok(registers@, rn_op, option_set(*w), true, ops@));
                assert(translation_of(*op, false, ops@));
            }
        },
        V7Operation::SubSpMinusRegister { s, rd, rm, shift } => {
            let s: bool = match s { Some(b) => *b, None => false };
            let sp: Operand = reg(&Register::SP);
            let rd_op: Operand = match rd { Some(d) => reg(d), None => sp.clone() };
            let shifted: Operand = loc("shifted");
            let result: Operand = loc("result");
            shift_into(&mut ops, &shifted, &reg(rm), *shift, None)?;
            ops.push(op_sub(&result, &sp, &shifted));
            if s {
                flags_nz(&mut ops, &result);
                ops.push(Operation::SetVFlag { operand1: sp.clone(), operand2: shifted.clone(), sub: true, carry: false });
                ops.push(Operation::SetCFlag { operand1: sp, operand2: shifted, sub: true, carry: false });
            }
            ops.push(op_mv(&rd_op, &result));
        },
        _ => {
            return Err(ArchError::ImplementorStringError("operation without a translation"));
        },
    }
    Ok(ops)
}


/// The 64 bit product of `rn` and `rm` in the local `result`.
fn long_product(ops: &mut Vec<Operation>, rn: &Register, rm: &Register)
    ensures
        exists|a: Operand, b: Operand, result: Operand, x: Operand, y: Operand| is_local(a, "rn64"@) && is_local(b, "rm64"@) && is_local(result, "result"@) && is_named(x, v7_register_name(*rn)) && is_named(y, v7_register_name(*rm)) && final(ops)@ == old(ops)@ + seq![Operation::Resize { destination: a, operand: x, bits: 64 }, Operation::Resize { destination: b, operand: y, bits: 64 }, Operation::Mul { destination: result, operand1: a, operand2: b }],
{
    let ghost start = ops@;
    let a: Operand = loc("rn64");
    let b: Operand = loc("rm64");
    let result: Operand = loc("result");
    let x: Operand = reg(rn);
    let y: Operand = reg(rm);
    ops.push(Operation::Resize { destination: a.clone(), operand: x.clone(), bits: 64 });
    ops.push(Operation::Resize { destination: b.clone(), operand: y.clone(), bits: 64 });
    ops.push(Operation::Mul { destination: result.clone(), operand1: a.clone(), operand2: b.clone() });
    assert(ops@ =~= start + seq![Operation::Resize { destination: a, operand: x, bits: 64 }, Operation::Resize { destination: b, operand: y, bits: 64 }, Operation::Mul { destination: result, operand1: a, operand2: b }]);
}

/// `rdhi` and `rdlo` take the high and the low word of the 64 bit local
/// `result`.
fn split_result(ops: &mut Vec<Operation>, rdlo: &Register, rdhi: &Register)
    ensures
        exists|result: Operand, high: Operand, hi: Operand, lo: Operand| is_local(result, "result"@) && is_local(high, "high"@) && is_named(hi, v7_register_name(*rdhi)) && is_named(lo, v7_register_name(*rdlo)) && final(ops)@ == old(ops)@ + seq![Operation::Srl { destination: high, operand: result, shift: Operand::Immediate(DataWord::Word64(32)) }, Operation::Resize { destination: hi, operand: high, bits: 32 }, Operation::Resize { destination: lo, operand: result, bits: 32 }],
{
    let ghost start = ops@;
    let result: Operand = loc("result");
    let high: Operand = loc("high");
    let hi: Operand = reg(rdhi);
    let lo: Operand = reg(rdlo);
    ops.push(Operation::Srl { destination: high.clone(), operand: result.clone(), shift: Operand::Immediate(DataWord::Word64(32)) });
    ops.push(Operation::Resize { destination: hi.clone(), operand: high.clone(), bits: 32 });
    ops.push(Operation::Resize { destination: lo.clone(), operand: result.clone(), bits: 32 });
    assert(ops@ =~= start + seq![Operation::Srl { destination: high, operand: result, shift: Operand::Immediate(DataWord::Word64(32)) }, Operation::Resize { destination: hi, operand: high, bits: 32 }, Operation::Resize { destination: lo, operand: result, bits: 32 }]);
}

/// `destination |= source<hi:lo>`.
fn or_field(ops: &mut Vec<Operation>, destination: &Operand, source: &Operand, hi: u32, lo: u32)
    requires
        lo <= hi < 32,
    ensures
        exists|part: Operand| #![trigger field_seq(part, *source, hi, lo)] is_local(part, "part"@) && final(ops)@ == old(ops)@ + field_seq(part, *source, hi, lo) + seq![Operation::Or { destination: *destination, operand1: *destination, operand2: part }],
{
    let ghost start = ops@;
    let part: Operand = loc("part");
    field(ops, &part, source, hi, lo);
    ops.push(op_or(destination, destination, &part));
    assert(ops@ =~= start + field_seq(part, *source, hi, lo) + seq![Operation::Or { destination: *destination, operand1: *destination, operand2: part }]);
}

/// The translation of a system operation, a branch with exchange, a compare
/// and branch, an if-then block, a hint or a long multiplication.
fn convert_system(op: &V7Operation) -> (r: Result<Vec<Operation>, ArchError>)
    ensures
        r is Err ==> r == Err::<Vec<Operation>, ArchError>(untranslated()),
        r is Ok <==> family_system(*op) && translatable(*op, false),
        r matches Ok(ops) ==> translation_of(*op, false, ops@),
{
    let intermediate: Operand = loc("intermediate");
    let mut ops: Vec<Operation> = Vec::new();
    match op {
        V7Operation::Blx { rm } => {
            let target: Operand = loc("target");
            let next_addr: Operand = loc("next_instr_addr");
            let lr: Operand = named("LR");
            let epsr: Operand = SpecialRegister::EPSR.local_into();
            ops.push(op_mv(&target, &reg(rm)));
            ops.push(op_sub(&next_addr, &named("PC"), &word(2)));
            clear_low_bit(&mut ops, &next_addr);
            ops.push(op_mv(&lr, &next_addr));
            ops.push(op_or(&lr, &lr, &word(1)));
            ops.push(op_or(&epsr, &epsr, &word(1u32 << 27u32)));
            clear_low_bit(&mut ops, &target);
            ops.push(op_mv(&named("PC"), &target));
        },
        V7Operation::Cbz { non, rn, imm } => {
            let old_z: Operand = loc("old_z");
            let destination: Operand = loc("dest");
            let z1: Operand = flag("Z");
            let z2: Operand = flag("Z");
            let rn_op: Operand = reg(rn);
            let pc: Operand = named("PC+");
            let condition: Condition = if *non == Some(true) { Condition::NE } else { Condition::EQ };
            ops.push(op_mv(&old_z, &z1));
            ops.push(Operation::SetZFlag(rn_op.clone()));
            ops.push(op_add(&destination, &pc, &word(*imm)));
            clear_low_bit(&mut ops, &destination);
            ops.push(Operation::ConditionalJump { destination: destination.clone(), condition });
            ops.push(op_mv(&z2, &old_z));
            proof {
                assert(ops@ =~= cbz_seq(old_z, z1, z2, rn_op, destination, pc, *imm, option_set(*non)));
                assert(translation_of(*op, false, ops@));
            }
        },
        V7Operation::Cps { enable, disable, affect_pri, affect_fault } => {
            if *enable == *disable {
                return Err(ArchError::ImplementorStringError("operation without a translation"));
            }
            let mask: u32 = if *enable { 0xffff_fffe } else { 1 };
            if *affect_pri {
                ops.push(op_and(&SpecialRegister::PRIMASK.local_into(), &SpecialRegister::PRIMASK.local_into(), &word(mask)));
            }
            if *affect_fault {
                ops.push(op_and(&SpecialRegister::FAULTMASK.local_into(), &SpecialRegister::FAULTMASK.local_into(), &word(mask)));
            }
        },
        V7Operation::Dbg { .. } => {},
        V7Operation::Dmb { .. } => {},
        V7Operation::Dsb { .. } => {},
        V7Operation::It { conds } => {
            let mut conditions: Vec<Condition> = Vec::new();
            let mut i: usize = 0;
            while i < conds.len()
                invariant
                    i <= conds@.len(),
                    conditions@ =~= conds@.take(i as int).map_values(|a: ArmCondition| condition_of(a)),
                decreases conds.len() - i,
            {
                conditions.push(arm_cond_to_ga_cond(&conds[i]));
                i = i + 1;
            }
            let ghost c = conditions;
            ops.push(Operation::ConditionalExecution { conditions });
            proof {
                assert(c@ =~= conds@.map_values(|a: ArmCondition| condition_of(a)));
                assert(ops@ =~= seq![Operation::ConditionalExecution { conditions: c }]);
                assert(translation_of(*op, false, ops@));
            }
        },
        V7Operation::Udf { .. } => {
            ops.push(Operation::Nop);
        },
        V7Operation::Mrs { rd, sysm } => {
            let rd_op: Operand = reg(rd);
            let group: u8 = (*sysm >> 3u8) & 0b11111u8;
            let low: u8 = *sysm & 0b111u8;
            let primask: Operand = loc("primask");
            let basepri: Operand = loc("basepri");
            let faultmask: Operand = loc("faultmask");
            ops.push(op_mv(&rd_op, &word(0)));
            if group == 0 && *sysm & 1u8 == 0 {
                ops.push(op_mv(&rd_op, &SpecialRegister::IPSR.local_into()));
                field(&mut ops, &rd_op, &rd_op, 8, 0);
            }
            if group == 0 && *sysm & 2u8 == 0 {
                ops.push(op_mv(&intermediate, &SpecialRegister::APSR.local_into()));
                ops.push(Operation::Sl { destination: intermediate.clone(), operand: intermediate.clone(), shift: word(27) });
                ops.push(op_or(&rd_op, &rd_op, &intermediate));
            }
            ops.push(op_mv(&primask, &SpecialRegister::PRIMASK.local_into()));
            ops.push(op_mv(&basepri, &SpecialRegister::BASEPRI.local_into()));
            ops.push(op_mv(&faultmask, &SpecialRegister::FAULTMASK.local_into()));
            if group == 2 && low == 0 {
                ops.push(op_and(&rd_op, &rd_op, &word(0xffff_fffe)));
                or_field(&mut ops, &rd_op, &primask, 0, 0);
            }
            if group == 2 && (low == 1 || low == 2) {
                ops.push(op_and(&rd_op, &rd_op, &word(0xffff_ff80)));
                or_field(&mut ops, &rd_op, &basepri, 7, 0);
            }
            if group == 2 && low == 3 {
                ops.push(op_and(&rd_op, &rd_op, &word(0xffff_fffe)));
                or_field(&mut ops, &rd_op, &faultmask, 0, 0);
            }
        },
        V7Operation::Msr { rn, mask, sysm } => {
            let rn_op: Operand = reg(rn);
            let group: u8 = (*sysm >> 3u8) & 0b11111u8;
            let low: u8 = *sysm & 0b111u8;
            let apsr: Operand = SpecialRegister::APSR.local_into();
            let primask: Operand = SpecialRegister::PRIMASK.local_into();
            let basepri: Operand = SpecialRegister::BASEPRI.local_into();
            let faultmask: Operand = SpecialRegister::FAULTMASK.local_into();
            if group == 0 && *sysm & 0b100u8 == 0 && *mask & 0b10u8 == 2 {
                field(&mut ops, &apsr, &apsr, 27, 0);
                field(&mut ops, &intermediate, &rn_op, 31, 27);
                ops.push(Operation::Sl { destination: intermediate.clone(), operand: intermediate.clone(), shift: word(27) });
                ops.push(op_or(&apsr, &apsr, &intermediate));
            }
            if group == 2 && low == 0 {
                field(&mut ops, &primask, &primask, 31, 1);
                ops.push(Operation::Sl { destination: primask.clone(), operand: primask.clone(), shift: word(1) });
                or_field(&mut ops, &apsr, &rn_op, 0, 0);
            }
            if group == 2 && low == 1 {
                field(&mut ops, &basepri, &primask, 31, 8);
                ops.push(Operation::Sl { destination: basepri.clone(), operand: basepri.clone(), shift: word(8) });
                or_field(&mut ops, &basepri, &rn_op, 7, 0);
            }
            if group == 2 && low == 2 {
                field(&mut ops, &basepri, &primask, 31, 8);
                ops.push(Operation::Sl { destination: basepri.clone(), operand: basepri.clone(), shift: word(8) });
                or_field(&mut ops, &basepri, &rn_op, 7, 0);
                field(&mut ops, &faultmask, &faultmask, 31, 1);
                ops.push(Operation::Sl { destination: faultmask.clone(), operand: faultmask.clone(), shift: word(1) });
                or_field(&mut ops, &faultmask, &rn_op, 0, 0);
            }
        },
        V7Operation::Umull { rdlo, rdhi, rn, rm } => {
            long_product(&mut ops, rn, rm);
            split_result(&mut ops, rdlo, rdhi);
        },
        V7Operation::Umlal { rdlo, rdhi, rn, rm } => {
            let accumulated: Operand = loc("rd_composite");
            let low: Operand = loc("low");
            let result: Operand = loc("result");
            long_product(&mut ops, rn, rm);
            ops.push(Operation::Resize { destination: accumulated.clone(), operand: reg(rdhi), bits: 64 });
            ops.push(Operation::Sl { destination: accumulated.clone(), operand: accumulated.clone(), shift: Operand::Immediate(DataWord::Word64(32)) });
            ops.push(Operation::Resize { destination: low.clone(), operand: reg(rdlo), bits: 64 });
            ops.push(op_or(&accumulated, &accumulated, &low));
            ops.push(op_add(&result, &result, &accumulated));
            split_result(&mut ops, rdlo, rdhi);
        },
        V7Operation::Umaal { rdlo, rdhi, rn, rm } => {
            let addend: Operand = loc("addend");
            let result: Operand = loc("result");
            long_product(&mut ops, rn, rm);
            ops.push(Operation::Resize { destination: addend.clone(), operand: reg(rdlo), bits: 64 });
            ops.push(op_add(&result, &result, &addend));
            ops.push(Operation::Resize { destination: addend.clone(), operand: reg(rdhi), bits: 64 });
            ops.push(op_add(&result, &result, &addend));
            split_result(&mut ops, rdlo, rdhi);
        },
        _ => {
            return Err(ArchError::ImplementorStringError("operation without a translation"));
        },
    }
    Ok(ops)
}


/// A lane of a parallel addition or subtraction: `destination =
/// rn<nh:nl> +/- rm<mh:ml>`, computed on 32 bits, or on `width` bits and
/// zero extended when `width` is not zero.
fn lane(
    ops: &mut Vec<Operation>,
    destination: &Operand,
    rn: &Operand,
    rm: &Operand,
    n: (u32, u32),
    m: (u32, u32),
    subtract: bool,
    width: u32,
)
    requires
        n.1 <= n.0 < 32,
        m.1 <= m.0 < 32,
        width <= 32,
    ensures
        exists|a: Operand, b: Operand| #![trigger lane_seq(*destination, *rn, *rm, a, b, n, m, subtract, width)] is_local(a, "lane_n"@) && is_local(b, "lane_m"@) && final(ops)@ == old(ops)@ + lane_seq(*destination, *rn, *rm, a, b, n, m, subtract, width),
{
    let ghost start = ops@;
    let a: Operand = loc("lane_n");
    let b: Operand = loc("lane_m");
    field(ops, &a, rn, n.0, n.1);
    field(ops, &b, rm, m.0, m.1);
    if width > 0 {
        ops.push(Operation::Resize { destination: a.clone(), operand: a.clone(), bits: width });
        ops.push(Operation::Resize { destination: b.clone(), operand: b.clone(), bits: width });
    }
    if subtract {
        ops.push(op_sub(destination, &a, &b));
    } else {
        ops.push(op_add(destination, &a, &b));
    }
    if width > 0 {
        ops.push(Operation::ZeroExtend { destination: destination.clone(), operand: destination.clone(), bits: width });
    }
    assert(ops@ =~= start + lane_seq(*destination, *rn, *rm, a, b, n, m, subtract, width));
}

/// `rd = value<hi:lo>` placed at bit `at`: the first part of a result
/// replaces `rd`, the others are or:ed into it.
fn place(ops: &mut Vec<Operation>, rd: &Operand, value: &Operand, hi: u32, lo: u32, at: u32, first: bool)
    requires
        lo <= hi < 32,
        at < 32,
    ensures
        first ==> final(ops)@ == old(ops)@ + field_seq(*rd, *value, hi, lo),
        !first ==> exists|part: Operand| #![trigger place_seq(*rd, *value, hi, lo, at, part)] is_local(part, "part"@) && final(ops)@ == old(ops)@ + place_seq(*rd, *value, hi, lo, at, part),
{
    let ghost start = ops@;
    if first {
        field(ops, rd, value, hi, lo);
    } else {
        let part: Operand = loc("part");
        field(ops, &part, value, hi, lo);
        if at > 0 {
            ops.push(Operation::Sl { destination: part.clone(), operand: part.clone(), shift: word(at) });
        }
        ops.push(op_or(rd, rd, &part));
        assert(ops@ =~= start + place_seq(*rd, *value, hi, lo, at, part));
    }
}

/// The half word lanes of a parallel operation: the low and the high half
/// words, the second operand's halves exchanged when `exchange`, each
/// added or subtracted as `sub_low` and `sub_high` say, and the result
/// taken from bits 15..0 of each, or from bits 16..1 when `halving`.
fn halves(ops: &mut Vec<Operation>, rd: &Operand, rn: &Operand, rm: &Operand, exchange: bool, sub_low: bool, sub_high: bool, width: u32, halving: bool)
    requires
        width <= 32,
    ensures
        exists|low: Operand, high: Operand, a1: Operand, b1: Operand, a2: Operand, b2: Operand, part: Operand| #![trigger lane_seq(low, *rn, *rm, a1, b1, (15u32, 0u32), low_lane_bits(exchange), sub_low, width), lane_seq(high, *rn, *rm, a2, b2, (31u32, 16u32), high_lane_bits(exchange), sub_high, width), place_seq(*rd, high, top_bit(halving, 16), low_bit(halving), 16, part)] is_local(low, "sum1"@) && is_local(high, "sum2"@) && is_local(a1, "lane_n"@) && is_local(b1, "lane_m"@) && is_local(a2, "lane_n"@) && is_local(b2, "lane_m"@) && is_local(part, "part"@) && final(ops)@ == old(ops)@ + lane_seq(low, *rn, *rm, a1, b1, (15u32, 0u32), low_lane_bits(exchange), sub_low, width) + lane_seq(high, *rn, *rm, a2, b2, (31u32, 16u32), high_lane_bits(exchange), sub_high, width) + field_seq(*rd, low, top_bit(halving, 16), low_bit(halving)) + place_seq(*rd, high, top_bit(halving, 16), low_bit(halving), 16, part),
{
    let ghost start = ops@;
    let low: Operand = loc("sum1");
    let high: Operand = loc("sum2");
    let m_low: (u32, u32) = if exchange { (31, 16) } else { (15, 0) };
    let m_high: (u32, u32) = if exchange { (15, 0) } else { (31, 16) };
    lane(ops, &low, rn, rm, (15, 0), m_low, sub_low, width);
    let ghost s1 = ops@;
    let ghost (a1, b1) = choose|a: Operand, b: Operand| is_local(a, "lane_n"@) && is_local(b, "lane_m"@) && s1 == start + lane_seq(low, *rn, *rm, a, b, (15, 0), m_low, sub_low, width);
    lane(ops, &high, rn, rm, (31, 16), m_high, sub_high, width);
    let ghost s2 = ops@;
    let ghost (a2, b2) = choose|a: Operand, b: Operand| is_local(a, "lane_n"@) && is_local(b, "lane_m"@) && s2 == s1 + lane_seq(high, *rn, *rm, a, b, (31, 16), m_high, sub_high, width);
    let (hi, lo): (u32, u32) = if halving { (16, 1) } else { (15, 0) };
    place(ops, rd, &low, hi, lo, 0, true);
    let ghost s3 = ops@;
    place(ops, rd, &high, hi, lo, 16, false);
    let ghost part = choose|part: Operand| is_local(part, "part"@) && ops@ == s3 + place_seq(*rd, high, hi, lo, 16, part);
    assert(ops@ == start + lane_seq(low, *rn, *rm, a1, b1, (15u32, 0u32), low_lane_bits(exchange), sub_low, width) + lane_seq(high, *rn, *rm, a2, b2, (31u32, 16u32), high_lane_bits(exchange), sub_high, width) + field_seq(*rd, low, top_bit(halving, 16), low_bit(halving)) + place_seq(*rd, high, top_bit(halving, 16), low_bit(halving), 16, part));
}

/// The byte lanes of a parallel operation, each added or subtracted, the
/// result taken from bits 7..0 of each, or from bits 8..1 when `halving`.
fn bytes(ops: &mut Vec<Operation>, rd: &Operand, rn: &Operand, rm: &Operand, subtract: bool, width: u32, halving: bool)
    requires
        width <= 32,
    ensures
        exists|s1: Operand, s2: Operand, s3: Operand, s4: Operand, a1: Operand, a2: Operand, a3: Operand, a4: Operand, b1: Operand, b2: Operand, b3: Operand, b4: Operand, p2: Operand, p3: Operand, p4: Operand| #![trigger lane_seq(s1, *rn, *rm, a1, b1, (7u32, 0u32), (7u32, 0u32), subtract, width), lane_seq(s2, *rn, *rm, a2, b2, (15u32, 8u32), (15u32, 8u32), subtract, width), lane_seq(s3, *rn, *rm, a3, b3, (23u32, 16u32), (23u32, 16u32), subtract, width), lane_seq(s4, *rn, *rm, a4, b4, (31u32, 24u32), (31u32, 24u32), subtract, width), place_seq(*rd, s2, top_bit(halving, 8), low_bit(halving), 8, p2), place_seq(*rd, s3, top_bit(halving, 8), low_bit(halving), 16, p3), place_seq(*rd, s4, top_bit(halving, 8), low_bit(halving), 24, p4)] is_local(s1, "sum1"@) && is_local(s2, "sum2"@) && is_local(s3, "sum3"@) && is_local(s4, "sum4"@) && is_local(a1, "lane_n"@) && is_local(b1, "lane_m"@) && is_local(a2, "lane_n"@) && is_local(b2, "lane_m"@) && is_local(a3, "lane_n"@) && is_local(b3, "lane_m"@) && is_local(a4, "lane_n"@) && is_local(b4, "lane_m"@) && is_local(p2, "part"@) && is_local(p3, "part"@) && is_local(p4, "part"@) && final(ops)@ == old(ops)@ + lane_seq(s1, *rn, *rm, a1, b1, (7u32, 0u32), (7u32, 0u32), subtract, width) + lane_seq(s2, *rn, *rm, a2, b2, (15u32, 8u32), (15u32, 8u32), subtract, width) + lane_seq(s3, *rn, *rm, a3, b3, (23u32, 16u32), (23u32, 16u32), subtract, width) + lane_seq(s4, *rn, *rm, a4, b4, (31u32, 24u32), (31u32, 24u32), subtract, width) + field_seq(*rd, s1, top_bit(halving, 8), low_bit(halving)) + place_seq(*rd, s2, top_bit(halving, 8), low_bit(halving), 8, p2) + place_seq(*rd, s3, top_bit(halving, 8), low_bit(halving), 16, p3) + place_seq(*rd, s4, top_bit(halving, 8), low_bit(halving), 24, p4),
{
    let ghost start = ops@;
    let s1: Operand = loc("sum1");
    let s2: Operand = loc("sum2");
    let s3: Operand = loc("sum3");
    let s4: Operand = loc("sum4");
    lane(ops, &s1, rn, rm, (7, 0), (7, 0), subtract, width);
    let ghost o1 = ops@;
    let ghost (a1, b1) = choose|a: Operand, b: Operand| is_local(a, "lane_n"@) && is_local(b, "lane_m"@) && o1 == start + lane_seq(s1, *rn, *rm, a, b, (7, 0), (7, 0), subtract, width);
    lane(ops, &s2, rn, rm, (15, 8), (15, 8), subtract, width);
    let ghost o2 = ops@;
    let ghost (a2, b2) = choose|a: Operand, b: Operand| is_local(a, "lane_n"@) && is_local(b, "lane_m"@) && o2 == o1 + lane_seq(s2, *rn, *rm, a, b, (15, 8), (15, 8), subtract, width);
    lane(ops, &s3, rn, rm, (23, 16), (23, 16), subtract, width);
    let ghost o3 = ops@;
    let ghost (a3, b3) = choose|a: Operand, b: Operand| is_local(a, "lane_n"@) && is_local(b, "lane_m"@) && o3 == o2 + lane_seq(s3, *rn, *rm, a, b, (23, 16), (23, 16), subtract, width);
    lane(ops, &s4, rn, rm, (31, 24), (31, 24), subtract, width);
    let ghost o4 = ops@;
    let ghost (a4, b4) = choose|a: Operand, b: Operand| is_local(a, "lane_n"@) && is_local(b, "lane_m"@) && o4 == o3 + lane_seq(s4, *rn, *rm, a, b, (31, 24), (31, 24), subtract, width);
    let (hi, lo): (u32, u32) = if halving { (8, 1) } else { (7, 0) };
    place(ops, rd, &s1, hi, lo, 0, true);
    let ghost o5 = ops@;
    place(ops, rd, &s2, hi, lo, 8, false);
    let ghost o6 = ops@;
    let ghost p2 = choose|part: Operand| is_local(part, "part"@) && o6 == o5 + place_seq(*rd, s2, hi, lo, 8, part);
    place(ops, rd, &s3, hi, lo, 16, false);
    let ghost o7 = ops@;
    let ghost p3 = choose|part: Operand| is_local(part, "part"@) && o7 == o6 + place_seq(*rd, s3, hi, lo, 16, part);
    place(ops, rd, &s4, hi, lo, 24, false);
    let ghost p4 = choose|part: Operand| is_local(part, "part"@) && ops@ == o7 + place_seq(*rd, s4, hi, lo, 24, part);
    assert(ops@ == start + lane_seq(s1, *rn, *rm, a1, b1, (7u32, 0u32), (7u32, 0u32), subtract, width) + lane_seq(s2, *rn, *rm, a2, b2, (15u32, 8u32), (15u32, 8u32), subtract, width) + lane_seq(s3, *rn, *rm, a3, b3, (23u32, 16u32), (23u32, 16u32), subtract, width) + lane_seq(s4, *rn, *rm, a4, b4, (31u32, 24u32), (31u32, 24u32), subtract, width) + field_seq(*rd, s1, top_bit(halving, 8), low_bit(halving)) + place_seq(*rd, s2, top_bit(halving, 8), low_bit(halving), 8, p2) + place_seq(*rd, s3, top_bit(halving, 8), low_bit(halving), 16, p3) + place_seq(*rd, s4, top_bit(halving, 8), low_bit(halving), 24, p4));
}

/// The translation of a parallel addition or subtraction of half words or
/// bytes; the greater or equal flags are not set.
#[verifier::rlimit(60)]
fn convert_parallel(op: &V7Operation) -> (r: Result<Vec<Operation>, ArchError>)
    ensures
        r is Err ==> r == Err::<Vec<Operation>, ArchError>(untranslated()),
        r is Ok <==> family_parallel(*op) && translatable(*op, false),
{
    let mut ops: Vec<Operation> = Vec::new();
    match op {
        V7Operation::Sadd16 { rd, rn, rm } => {
            let rn_op: Operand = reg(rn);
            let rd_op: Operand = match rd { Some(d) => reg(d), None => rn_op.clone() };
            halves(&mut ops, &rd_op, &rn_op, &reg(rm), false, false, false, 16, false);
        },
        V7Operation::Sadd8 { rd, rn, rm } => {
            let rn_op: Operand = reg(rn);
            let rd_op: Operand = match rd { Some(d) => reg(d), None => rn_op.clone() };
            bytes(&mut ops, &rd_op, &rn_op, &reg(rm), false, 8, false);
        },
        V7Operation::Sasx { rd, rn, rm } => {
            let rn_op: Operand = reg(rn);
            let rd_op: Operand = match rd { Some(d) => reg(d), None => rn_op.clone() };
            halves(&mut ops, &rd_op, &rn_op, &reg(rm), true, true, false, 16, false);
        },
        V7Operation::Shadd16 { rd, rn, rm } => {
            let rn_op: Operand = reg(rn);
            let rd_op: Operand = match rd { Some(d) => reg(d), None => rn_op.clone() };
            halves(&mut ops, &rd_op, &rn_op, &reg(rm), false, false, false, 16, true);
        },
        V7Operation::Shadd8 { rd, rn, rm } => {
            let rn_op: Operand = reg(rn);
            let rd_op: Operand = match rd { Some(d) => reg(d), None => rn_op.clone() };
            bytes(&mut ops, &rd_op, &rn_op, &reg(rm), false, 8, true);
        },
        V7Operation::Shasx { rd, rn, rm } => {
            let rn_op: Operand = reg(rn);
            let rd_op: Operand = match rd { Some(d) => reg(d), None => rn_op.clone() };
            halves(&mut ops, &rd_op, &rn_op, &reg(rm), true, true, false, 16, true);
        },
        V7Operation::Shsax { rd, rn, rm } => {
            let rn_op: Operand = reg(rn);
            let rd_op: Operand = match rd { Some(d) => reg(d), None => rn_op.clone() };
            let sum: Operand = loc("sum");
            let diff: Operand = loc("diff");
            let rm_op: Operand = reg(rm);
            lane(&mut ops, &sum, &rn_op, &rm_op, (15, 0), (31, 16), false, 16);
            lane(&mut ops, &diff, &rn_op, &rm_op, (31, 16), (15, 0), true, 16);
            place(&mut ops, &rd_op, &diff, 16, 1, 0, true);
            place(&mut ops, &rd_op, &sum, 16, 1, 16, false);
        },
        V7Operation::Shsub16 { rd, rn, rm } => {
            let rn_op: Operand = reg(rn);
            let rd_op: Operand = match rd { Some(d) => reg(d), None => rn_op.clone() };
            halves(&mut ops, &rd_op, &rn_op, &reg(rm), false, true, true, 16, true);
        },
        V7Operation::Shsub8 { rd, rn, rm } => {
            let rn_op: Operand = reg(rn);
            let rd_op: Operand = match rd { Some(d) => reg(d), None => rn_op.clone() };
            bytes(&mut ops, &rd_op, &rn_op, &reg(rm), true, 8, true);
        },
        V7Operation::Uadd16 { rd, rn, rm } => {
            let rn_op: Operand = reg(rn);
            let rd_op: Operand = match rd { Some(d) => reg(d), None => rn_op.clone() };
            let rm_op: Operand = reg(rm);
            let rn_low: Operand = loc("rn_lsh");
            let rm_low: Operand = loc("rm_lsh");
            let rn_high: Operand = loc("rn_msh");
            let rm_high: Operand = loc("rm_msh");
            let sum1: Operand = loc("sum1");
            let sum2: Operand = loc("sum2");
            ops.push(op_and(&rn_low, &rn_op, &word(0xffff)));
            ops.push(op_and(&rm_low, &rm_op, &word(0xffff)));
            ops.push(op_add(&sum1, &rn_low, &rm_low));
            ops.push(op_and(&sum1, &sum1, &word(0xffff)));
            ops.push(Operation::Srl { destination: rn_high.clone(), operand: rn_op, shift: word(16) });
            ops.push(op_and(&rn_high, &rn_high, &word(0xffff)));
            ops.push(Operation::Srl { destination: rm_high.clone(), operand: rm_op.clone(), shift: word(16) });
            ops.push(op_and(&rm_high, &rm_op, &word(0xffff)));
            ops.push(op_add(&sum2, &rn_high, &rm_high));
            ops.push(op_and(&sum2, &sum2, &word(0xffff)));
            ops.push(Operation::Sl { destination: sum2.clone(), operand: sum2.clone(), shift: word(16) });
            ops.push(op_or(&rd_op, &sum1, &sum2));
        },
        V7Operation::Uadd8 { rd, rn, rm } => {
            let rn_op: Operand = reg(rn);
            let rd_op: Operand = match rd { Some(d) => reg(d), None => rn_op.clone() };
            bytes(&mut ops, &rd_op, &rn_op, &reg(rm), false, 0, false);
        },
        V7Operation::Uasx { rd, rn, rm } => {
            let rn_op: Operand = reg(rn);
            let rd_op: Operand = match rd { Some(d) => reg(d), None => rn_op.clone() };
            halves(&mut ops, &rd_op, &rn_op, &reg(rm), true, true, false, 0, false);
        },
        V7Operation::Uhadd16 { rd, rn, rm } => {
            let rn_op: Operand = reg(rn);
            let rd_op: Operand = match rd { Some(d) => reg(d), None => rn_op.clone() };
            halves(&mut ops, &rd_op, &rn_op, &reg(rm), false, false, false, 0, true);
        },
        V7Operation::Uhadd8 { rd, rn, rm } => {
            let rn_op: Operand = reg(rn);
            let rd_op: Operand = match rd { Some(d) => reg(d), None => rn_op.clone() };
            let rm_op: Operand = reg(rm);
            let s1: Operand = loc("sum1");
            let s2: Operand = loc("sum2");
            let s3: Operand = loc("sum3");
            let s4: Operand = loc("sum4");
            lane(&mut ops, &s1, &rn_op, &rm_op, (7, 0), (7, 0), false, 0);
            lane(&mut ops, &s2, &rn_op, &rm_op, (15, 8), (15, 8), false, 0);
            lane(&mut ops, &s3, &rn_op, &rm_op, (23, 16), (23, 16), false, 0);
            lane(&mut ops, &s4, &rn_op, &rm_op, (31, 24), (31, 24), false, 0);
            place(&mut ops, &rd_op, &s1, 8, 1, 0, true);
            place(&mut ops, &rd_op, &s2, 8, 1, 8, false);
            place(&mut ops, &rd_op, &s3, 8, 1, 16, false);
            place(&mut ops, &rd_op, &s2, 8, 1, 24, false);
        },
        V7Operation::Uhasx { rd, rn, rm } => {
            let rn_op: Operand = reg(rn);
            let rd_op: Operand = match rd { Some(d) => reg(d), None => rn_op.clone() };
            halves(&mut ops, &rd_op, &rn_op, &reg(rm), true, true, false, 0, true);
        },
        V7Operation::Uhsax { rd, rn, rm } => {
            let rn_op: Operand = reg(rn);
            let rd_op: Operand = match rd { Some(d) => reg(d), None => rn_op.clone() };
            halves(&mut ops, &rd_op, &rn_op, &reg(rm), true, false, true, 0, true);
        },
        V7Operation::Uhsub16 { rd, rn, rm } => {
            let rn_op: Operand = reg(rn);
            let rd_op: Operand = match rd { Some(d) => reg(d), None => rn_op.clone() };
            halves(&mut ops, &rd_op, &rn_op, &reg(rm), false, false, false, 0, true);
        },
        V7Operation::Uhsub8 { rd, rn, rm } => {
            let rn_op: Operand = reg(rn);
            let rd_op: Operand = match rd { Some(d) => reg(d), None => rn_op.clone() };
            bytes(&mut ops, &rd_op, &rn_op, &reg(rm), true, 0, true);
        },
        V7Operation::Usax { rd, rn, rm } => {
            let rn_op: Operand = reg(rn);
            let rd_op: Operand = match rd { Some(d) => reg(d), None => rn_op.clone() };
            halves(&mut ops, &rd_op, &rn_op, &reg(rm), true, false, true, 0, false);
        },
        V7Operation::Usub16 { rd, rn, rm } => {
            let rn_op: Operand = reg(rn);
            let rd_op: Operand = match rd { Some(d) => reg(d), None => rn_op.clone() };
            halves(&mut ops, &rd_op, &rn_op, &reg(rm), false, true, true, 0, false);
        },
        _ => {
            return Err(ArchError::ImplementorStringError("operation without a translation"));
        },
    }
    Ok(ops)
}


/// The general assembly operations of an ARMv7-M operation of `size` bits;
/// `in_it_block` says whether it stands in an IT block. An operation
/// without a translation, or whose arguments the translation refuses, is
/// an error.
pub fn try_convert(size: usize, op: &V7Operation, in_it_block: bool) -> (r: Result<Vec<Operation>, ArchError>)
    ensures
        r is Ok <==> translatable(*op, in_it_block),
        r is Err ==> r == Err::<Vec<Operation>, ArchError>(untranslated()),
        r matches Ok(ops) ==> translation_of(*op, in_it_block, ops@),
{
    match convert_data(op, in_it_block) {
        Ok(ops) => return Ok(ops),
        Err(_) => {},
    }
    match convert_control(op, in_it_block) {
        Ok(ops) => return Ok(ops),
        Err(_) => {},
    }
    match convert_logic(op, in_it_block) {
        Ok(ops) => return Ok(ops),
        Err(_) => {},
    }
    match convert_extend(op) {
        Ok(ops) => return Ok(ops),
        Err(_) => {},
    }
    match convert_load(op) {
        Ok(ops) => return Ok(ops),
        Err(_) => {},
    }
    match convert_store(op) {
        Ok(ops) => return Ok(ops),
        Err(_) => {},
    }
    match convert_system(op) {
        Ok(ops) => return Ok(ops),
        Err(_) => {},
    }
    match convert_parallel(op) {
        Ok(ops) => return Ok(ops),
        Err(_) => {},
    }
    convert_memory(op)
}


/// The translation of a decoded operation, given with its size in bits.
/// The translation of an operation that has one (see [`try_convert`]).
pub fn convert(size: usize, op: &V7Operation, in_it_block: bool) -> (r: Vec<Operation>)
    requires
        translatable(*op, in_it_block),
    ensures
        translation_of(*op, in_it_block, r@),
{
    match try_convert(size, op, in_it_block) {
        Ok(ops) => ops,
        Err(_) => {
            proof {
                assert(false);
            }
            Vec::new()
        },
    }
}

/// The translation of a decoded operation, given with its size in bits.
pub trait Convert: Sized {
    /// Whether the operation has a translation.
    spec fn convertible(&self, in_it_block: bool) -> bool;

    /// The general assembly operations of the operation.
    fn convert(self, in_it_block: bool) -> Vec<Operation>
        requires
            self.convertible(in_it_block),
    ;
}

impl Convert for (usize, V7Operation) {
    open spec fn convertible(&self, in_it_block: bool) -> bool {
        translatable(self.1, in_it_block)
    }

    fn convert(self, in_it_block: bool) -> (r: Vec<Operation>)
        ensures
            translation_of(self.1, in_it_block, r@),
    {
        crate::arch::arm::v7::decoder::convert(self.0, &self.1, in_it_block)
    }
}

} // verus!
