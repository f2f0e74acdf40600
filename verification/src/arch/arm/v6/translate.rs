//! Translation of ARMv6-M instructions to general assembly.
use vstd::prelude::*;
use crate::arch::arm::registers::{Register, SpecialRegister, arm_register_to_ga_operand,
    arm_special_register_to_operand, arm_cond_to_ga_cond, register_name, special_register_name, condition_of};
use crate::arch::arm::v6::instruction::{V6Instruction, V6Operation};
use crate::arch::arm::v6::timing::{cycle_count_m0plus_core, cycles_m0plus, has_timing};
use crate::arch::errors::{ArchError, ParseError};
use crate::general_assembly::operand::{DataWord, Operand};
use crate::general_assembly::operation::Operation;
use crate::symex::instruction::Instruction;

verus! {

/// Whether an operation has a translation. Stores, most subtractions,
/// sign and half word extensions, `TST`, `ROR`, `RSB`, `SBC`, `SEV`, `SVC`
/// and the instructions without a cycle count have none.
pub open spec fn v6_supported(op: V6Operation) -> bool {
    &&& has_timing(op)
    &&& !(op is RORReg || op is RSBImm || op is SBCReg || op is SEV || op is STM || op is STRImm
        || op is STRReg || op is STRBImm || op is STRBReg || op is STRHImm || op is STRHReg
        || op is SUBImm || op is SUBReg || op is SVC || op is SXTB || op is SXTH || op is TSTReg
        || op is UXTH)
}

/// The size in bits of the machine instruction of an operation.
pub open spec fn v6_size(op: V6Operation) -> u32 {
    if op is BL || op is DMB || op is DSB || op is ISB || op is MRS || op is MSRReg {
        32
    } else {
        16
    }
}

/// A local of the instruction.
fn local(name: &str) -> (r: Operand)
    ensures
        r matches Operand::Local(n) && n@ == name@,
{
    Operand::Local(name.to_owned())
}

/// A 32 bit immediate.
fn imm(v: u32) -> (r: Operand)
    ensures
        r == Operand::Immediate(DataWord::Word32(v)),
{
    Operand::Immediate(DataWord::Word32(v))
}

/// A register operand.
fn reg(r: &Register) -> (o: Operand)
    ensures
        is_register(o, *r),
{
    arm_register_to_ga_operand(r)
}

/// `operation` followed by the negative and zero flag updates of `d`.
fn with_nz(first: Operation, d: &Operand) -> (r: Vec<Operation>)
    ensures
        r@ == seq![first, Operation::SetNFlag(*d), Operation::SetZFlag(*d)],
{
    vec![first, Operation::SetNFlag(d.clone()), Operation::SetZFlag(d.clone())]
}

/// Whether `o` is the register operand of `r`.
pub open spec fn is_register(o: Operand, r: Register) -> bool {
    match o {
        Operand::Register(n) => n@ == register_name(r),
        _ => false,
    }
}

/// Whether `o` is the register operand of the special register `r`.
pub open spec fn is_special(o: Operand, r: SpecialRegister) -> bool {
    match o {
        Operand::Register(n) => n@ == special_register_name(r),
        _ => false,
    }
}

/// Whether `o` is the local named `name`.
pub open spec fn is_local(o: Operand, name: Seq<char>) -> bool {
    match o {
        Operand::Local(n) => n@ == name,
        _ => false,
    }
}

/// Whether `o` is the 32 bit immediate `v`.
pub open spec fn is_word(o: Operand, v: u32) -> bool {
    o == Operand::Immediate(DataWord::Word32(v))
}

/// Whether operations `i` and `i + 1` set the negative and zero flags from `r`.
pub open spec fn sets_nz(ops: Seq<Operation>, i: int, r: Register) -> bool {
    &&& match ops[i] {
        Operation::SetNFlag(o) => is_register(o, r),
        _ => false,
    }
    &&& match ops[i + 1] {
        Operation::SetZFlag(o) => is_register(o, r),
        _ => false,
    }
}

/// Whether `op` is `destination = a <kind> b` over registers, with `kind`
/// 0 for and, 1 for exclusive or, 2 for or and 3 for multiplication.
pub open spec fn is_binary_of(op: Operation, kind: int, d: Register, a: Register, b: Register) -> bool {
    match op {
        Operation::And { destination, operand1, operand2 } => kind == 0 && is_register(destination, d)
            && is_register(operand1, a) && is_register(operand2, b),
        Operation::Xor { destination, operand1, operand2 } => kind == 1 && is_register(destination, d)
            && is_register(operand1, a) && is_register(operand2, b),
        Operation::Or { destination, operand1, operand2 } => kind == 2 && is_register(destination, d)
            && is_register(operand1, a) && is_register(operand2, b),
        Operation::Mul { destination, operand1, operand2 } => kind == 3 && is_register(destination, d)
            && is_register(operand1, a) && is_register(operand2, b),
        _ => false,
    }
}

/// Whether `ops` loads `bits` bits at `n + offset` into `t`, then zero
/// (`extend` 1) or sign (`extend` 2) extends them.
pub open spec fn loads(ops: Seq<Operation>, n: Register, offset: Operand, t: Register, bits: u32, extend: u8) -> bool {
    &&& ops.len() == if extend == 1 || extend == 2 { 3int } else { 2int }
    &&& match ops[0] {
        Operation::Add { destination, operand1, operand2 } => is_local(destination, "addr"@) && is_register(operand1, n)
            && operand2 == offset,
        _ => false,
    }
    &&& match ops[1] {
        Operation::Move { destination, source } => is_register(destination, t) && match source {
            Operand::AddressInLocal(name, w) => name@ == "addr"@ && w == bits,
            _ => false,
        },
        _ => false,
    }
    &&& extend == 1 ==> match ops[2] {
        Operation::ZeroExtend { destination, operand, bits: b } => is_register(destination, t) && is_register(operand, t)
            && b == bits,
        _ => false,
    }
    &&& extend == 2 ==> match ops[2] {
        Operation::SignExtend { destination, operand, bits: b } => is_register(destination, t) && is_register(operand, t)
            && b == 8,
        _ => false,
    }
}

/// Whether `ops` compares `n` with `m` (`n - m` when `sub`, else `n + m`):
/// the difference or sum goes to the local `result`, which sets the
/// negative and zero flags, and the carry and overflow flags follow the
/// operation.
pub open spec fn compares(ops: Seq<Operation>, n: Operand, m: Operand, sub: bool) -> bool {
    &&& ops.len() == 5
    &&& match ops[0] {
        Operation::Sub { destination, operand1, operand2 } => sub && is_local(destination, "result"@) && operand1 == n
            && operand2 == m,
        Operation::Add { destination, operand1, operand2 } => !sub && is_local(destination, "result"@) && operand1 == n
            && operand2 == m,
        _ => false,
    }
    &&& match ops[1] {
        Operation::SetNFlag(o) => is_local(o, "result"@),
        _ => false,
    }
    &&& match ops[2] {
        Operation::SetZFlag(o) => is_local(o, "result"@),
        _ => false,
    }
    &&& ops[3] == Operation::SetCFlag { operand1: n, operand2: m, sub, carry: false }
    &&& ops[4] == Operation::SetVFlag { operand1: n, operand2: m, sub, carry: false }
}

/// An operand that is the register `r`.
pub open spec fn reg_arg(r: Register) -> spec_fn(Operand) -> bool {
    |o: Operand| is_register(o, r)
}

/// An operand that is the local `name`.
pub open spec fn local_arg(name: Seq<char>) -> spec_fn(Operand) -> bool {
    |o: Operand| is_local(o, name)
}

/// An operand that is the 32 bit immediate `v`.
pub open spec fn word_arg(v: u32) -> spec_fn(Operand) -> bool {
    |o: Operand| is_word(o, v)
}

/// An operand that is the word in memory at the address in the local `name`.
pub open spec fn memory_arg(name: Seq<char>) -> spec_fn(Operand) -> bool {
    |o: Operand| o matches Operand::AddressInLocal(n, w) && n@ == name && w == 32
}

/// Whether `op` moves an operand described by `s` into one described by `d`.
pub open spec fn moves(op: Operation, d: spec_fn(Operand) -> bool, s: spec_fn(Operand) -> bool) -> bool {
    match op {
        Operation::Move { destination, source } => d(destination) && s(source),
        _ => false,
    }
}

/// Whether `op` writes `a <tag> b` to `d`, where `tag` is 0 for an
/// addition, 1 for an addition with carry, 2 for a subtraction, 3 for a
/// bitwise and, 4 for a left shift, 5 for a logical and 6 for an
/// arithmetic right shift, and 7 for a bitwise or.
pub open spec fn computes(
    op: Operation,
    tag: int,
    d: spec_fn(Operand) -> bool,
    a: spec_fn(Operand) -> bool,
    b: spec_fn(Operand) -> bool,
) -> bool {
    match op {
        Operation::Add { destination, operand1, operand2 } => tag == 0 && d(destination) && a(operand1) && b(operand2),
        Operation::Adc { destination, operand1, operand2 } => tag == 1 && d(destination) && a(operand1) && b(operand2),
        Operation::Sub { destination, operand1, operand2 } => tag == 2 && d(destination) && a(operand1) && b(operand2),
        Operation::And { destination, operand1, operand2 } => tag == 3 && d(destination) && a(operand1) && b(operand2),
        Operation::Sl { destination, operand, shift } => tag == 4 && d(destination) && a(operand) && b(shift),
        Operation::Srl { destination, operand, shift } => tag == 5 && d(destination) && a(operand) && b(shift),
        Operation::Sra { destination, operand, shift } => tag == 6 && d(destination) && a(operand) && b(shift),
        Operation::Or { destination, operand1, operand2 } => tag == 7 && d(destination) && a(operand1) && b(operand2),
        _ => false,
    }
}

/// Whether `c` and `v` set the carry and overflow flags of `a + b`
/// (`a - b` when `sub`, with the carry added when `carry`).
pub open spec fn sets_cv(
    c: Operation,
    v: Operation,
    a: spec_fn(Operand) -> bool,
    b: spec_fn(Operand) -> bool,
    sub: bool,
    carry: bool,
) -> bool {
    &&& match c {
        Operation::SetCFlag { operand1, operand2, sub: s, carry: k } => a(operand1) && b(operand2) && s == sub
            && k == carry,
        _ => false,
    }
    &&& match v {
        Operation::SetVFlag { operand1, operand2, sub: s, carry: k } => a(operand1) && b(operand2) && s == sub
            && k == carry,
        _ => false,
    }
}

/// Whether `op` sets the carry flag of an arithmetic right shift of the
/// local `name` by `shift`.
pub open spec fn sets_c_sra(op: Operation, name: Seq<char>, shift: spec_fn(Operand) -> bool) -> bool {
    match op {
        Operation::SetCFlagSra { operand, shift: n } => is_local(operand, name) && shift(n),
        _ => false,
    }
}

/// Whether `ops[start + 2 * j]` moves register `reg_list[j]` to (`store`)
/// or from the word at the address in the local `Address`, and the next
/// operation steps that address by four.
pub open spec fn transfer_step(ops: Seq<Operation>, start: int, reg_list: Seq<Register>, j: int, store: bool) -> bool {
    &&& if store {
        moves(ops[start + 2 * j], memory_arg("Address"@), reg_arg(reg_list[j]))
    } else {
        moves(ops[start + 2 * j], reg_arg(reg_list[j]), memory_arg("Address"@))
    }
    &&& computes(ops[start + 2 * j + 1], 0, local_arg("Address"@), local_arg("Address"@), word_arg(4))
}

/// Whether `ops[start..]` moves the first `count` registers of `reg_list`
/// in turn to (`store`) or from the word at the address in the local
/// `Address`, stepping the address by four after each.
pub open spec fn transfers(ops: Seq<Operation>, start: int, reg_list: Seq<Register>, count: int, store: bool) -> bool {
    forall|j: int| 0 <= j < count ==> #[trigger] transfer_step(ops, start, reg_list, j, store)
}

/// The local that holds byte `j` in a byte reversal.
pub open spec fn byte_local(j: int) -> Seq<char> {
    if j == 0 {
        "b1"@
    } else if j == 1 {
        "B2"@
    } else if j == 2 {
        "B3"@
    } else {
        "B4"@
    }
}

/// Whether `ops` reverses bytes of `m` into `d`: `d` is cleared, byte `j`
/// is picked by `masks[j]`, shifted left (`shifts[j].0`) or right by
/// `shifts[j].1` and or:ed into `d`; then `d` is sign extended from 16
/// bits when `sign_extend`.
pub open spec fn reverses(
    ops: Seq<Operation>,
    m: Register,
    d: Register,
    masks: Seq<u32>,
    shifts: Seq<(bool, u32)>,
    sign_extend: bool,
) -> bool {
    let k = masks.len() as int;
    &&& ops.len() == 1 + 3 * k + if sign_extend { 1int } else { 0int }
    &&& moves(ops[0], reg_arg(d), word_arg(0))
    &&& forall|j: int|
        0 <= j < k ==> computes(ops[1 + j], 3, local_arg(#[trigger] byte_local(j)), reg_arg(m), word_arg(masks[j]))
    &&& forall|j: int|
        0 <= j < k ==> computes(
            ops[1 + k + j],
            if shifts[j].0 { 4int } else { 5int },
            local_arg(#[trigger] byte_local(j)),
            local_arg(byte_local(j)),
            word_arg(shifts[j].1),
        )
    &&& forall|j: int|
        0 <= j < k ==> computes(ops[1 + 2 * k + j], 7, reg_arg(d), reg_arg(d), local_arg(#[trigger] byte_local(j)))
    &&& sign_extend ==> match ops[1 + 3 * k] {
        Operation::SignExtend { destination, operand, bits } => is_register(destination, d) && is_register(operand, d)
            && bits == 16,
        _ => false,
    }
}

/// The operations the translation of a supported operation gives; no
/// list is the translation of an unsupported one.
pub open spec fn translation_of(op: V6Operation, ops: Seq<Operation>) -> bool {
    match op {
        V6Operation::MOVImm { d, imm } => ops.len() == 3 && (match ops[0] {
            Operation::Move { destination, source } => is_register(destination, d) && is_word(source, imm),
            _ => false,
        }) && sets_nz(ops, 1, d),
        V6Operation::MOVReg { m, d, set_flags } => ops.len() == (if set_flags { 3int } else { 1int }) && (match ops[0] {
            Operation::Move { destination, source } => is_register(destination, d) && is_register(source, m),
            _ => false,
        }) && (set_flags ==> sets_nz(ops, 1, d)),
        V6Operation::BX { m } => ops.len() == 1 && match ops[0] {
            Operation::Move { destination, source } => is_register(destination, Register::PC) && is_register(source, m),
            _ => false,
        },
        V6Operation::BLXReg { m } => ops.len() == 2 && (match ops[0] {
            Operation::Move { destination, source } => is_register(destination, Register::LR) && is_register(
                source,
                Register::PC,
            ),
            _ => false,
        }) && match ops[1] {
            Operation::Move { destination, source } => is_register(destination, Register::PC) && is_register(source, m),
            _ => false,
        },
        V6Operation::B { cond, imm } => ops.len() == 2 && (match ops[0] {
            Operation::Add { destination, operand1, operand2 } => is_local(destination, "new_pc"@) && is_register(
                operand1,
                Register::PC,
            ) && is_word(operand2, imm.wrapping_add(2)),
            _ => false,
        }) && match ops[1] {
            Operation::ConditionalJump { destination, condition } => is_local(destination, "new_pc"@) && condition
                == condition_of(cond),
            _ => false,
        },
        V6Operation::ADDImmSP { d, imm } => ops.len() == 1 && match ops[0] {
            Operation::Add { destination, operand1, operand2 } => is_register(destination, d) && is_register(
                operand1,
                Register::SP,
            ) && is_word(operand2, imm),
            _ => false,
        },
        V6Operation::SUBImmSP { imm } => ops.len() == 1 && match ops[0] {
            Operation::Sub { destination, operand1, operand2 } => is_register(destination, Register::SP)
                && is_register(operand1, Register::SP) && is_word(operand2, imm),
            _ => false,
        },
        V6Operation::UXTB { m, d } => ops.len() == 1 && match ops[0] {
            Operation::ZeroExtend { destination, operand, bits } => is_register(destination, d) && is_register(operand, m)
                && bits == 8,
            _ => false,
        },
        V6Operation::ANDReg { m, dn } => ops.len() == 3 && is_binary_of(ops[0], 0, dn, dn, m) && sets_nz(ops, 1, dn),
        V6Operation::EORReg { m, dn } => ops.len() == 3 && is_binary_of(ops[0], 1, dn, dn, m) && sets_nz(ops, 1, dn),
        V6Operation::ORRReg { m, dn } => ops.len() == 3 && is_binary_of(ops[0], 2, dn, dn, m) && sets_nz(ops, 1, dn),
        V6Operation::MUL { n, dm } => ops.len() == 3 && is_binary_of(ops[0], 3, dm, n, dm) && sets_nz(ops, 1, dm),
        V6Operation::MVNReg { m, d } => ops.len() == 3 && (match ops[0] {
            Operation::Not { destination, operand } => is_register(destination, d) && is_register(operand, m),
            _ => false,
        }) && sets_nz(ops, 1, d),
        V6Operation::LSLImm { imm, m, d } => ops.len() == 3 && (match ops[0] {
            Operation::Sl { destination, operand, shift } => is_register(destination, d) && is_register(operand, m)
                && is_word(shift, imm),
            _ => false,
        }) && sets_nz(ops, 1, d),
        V6Operation::LSRImm { imm, m, d } => ops.len() == 3 && (match ops[0] {
            Operation::Srl { destination, operand, shift } => is_register(destination, d) && is_register(operand, m)
                && is_word(shift, imm),
            _ => false,
        }) && sets_nz(ops, 1, d),
        V6Operation::MRS { d, sysm } => ops.len() == 1 && match ops[0] {
            Operation::Move { destination, source } => is_register(destination, d) && is_special(source, sysm),
            _ => false,
        },
        V6Operation::MSRReg { n, sysm } => ops.len() == 1 && match ops[0] {
            Operation::Move { destination, source } => is_special(destination, sysm) && is_register(source, n),
            _ => false,
        },
        V6Operation::CMPImm { n, imm } => exists|a: Operand| #[trigger] is_register(a, n) && compares(
            ops,
            a,
            Operand::Immediate(DataWord::Word32(imm)),
            true,
        ),
        V6Operation::CMPReg { m, n } => exists|a: Operand, b: Operand| #[trigger] is_register(a, n) && #[trigger] is_register(
            b,
            m,
        ) && compares(ops, a, b, true),
        V6Operation::CMNReg { m, n } => exists|a: Operand, b: Operand| #[trigger] is_register(a, n) && #[trigger] is_register(
            b,
            m,
        ) && compares(ops, a, b, false),
        V6Operation::LDRImm { imm, n, t } => loads(ops, n, Operand::Immediate(DataWord::Word32(imm)), t, 32, 0),
        V6Operation::LDRBImm { imm, n, t } => loads(ops, n, Operand::Immediate(DataWord::Word32(imm)), t, 8, 1),
        V6Operation::LDRHImm { imm, n, t } => loads(ops, n, Operand::Immediate(DataWord::Word32(imm)), t, 16, 1),
        V6Operation::LDRReg { m, n, t } => exists|b: Operand| #[trigger] is_register(b, m) && loads(ops, n, b, t, 32, 0),
        V6Operation::LDRBReg { m, n, t } => exists|b: Operand| #[trigger] is_register(b, m) && loads(ops, n, b, t, 8, 1),
        V6Operation::LDRHReg { m, n, t } => exists|b: Operand| #[trigger] is_register(b, m) && loads(ops, n, b, t, 16, 1),
        V6Operation::LDRSBReg { m, n, t } => exists|b: Operand| #[trigger] is_register(b, m) && loads(ops, n, b, t, 8, 2),
        V6Operation::LDRSH { m, n, t } => exists|b: Operand| #[trigger] is_register(b, m) && loads(ops, n, b, t, 16, 2),
        V6Operation::PUSH { reg_list } => {
            let k = reg_list@.len() as int;
            &&& ops.len() == 2 + 2 * k
            &&& computes(ops[0], 2, local_arg("Address"@), reg_arg(Register::SP), word_arg((4 * k) as u32))
            &&& transfers(ops, 1, reg_list@, k, true)
            &&& computes(ops[1 + 2 * k], 2, reg_arg(Register::SP), reg_arg(Register::SP), word_arg((4 * k) as u32))
        },
        V6Operation::POP { reg_list } => {
            let k = reg_list@.len() as int;
            &&& ops.len() == 2 + 2 * k
            &&& moves(ops[0], local_arg("Address"@), reg_arg(Register::SP))
            &&& transfers(ops, 1, reg_list@, k, false)
            &&& computes(ops[1 + 2 * k], 0, reg_arg(Register::SP), reg_arg(Register::SP), word_arg((4 * k) as u32))
        },
        V6Operation::LDM { n, reg_list } => {
            let k = reg_list@.len() as int;
            &&& ops.len() == 1 + 2 * k + if reg_list@.contains(n) { 1int } else { 0int }
            &&& moves(ops[0], local_arg("Address"@), reg_arg(n))
            &&& transfers(ops, 1, reg_list@, k, true)
            &&& reg_list@.contains(n) ==> moves(ops[1 + 2 * k], reg_arg(n), local_arg("Address"@))
        },
        V6Operation::ADCReg { m, n, d } => ops.len() == 5 && computes(ops[0], 1, reg_arg(d), reg_arg(n), reg_arg(m))
            && sets_nz(ops, 1, d) && sets_cv(ops[3], ops[4], reg_arg(n), reg_arg(m), false, true),
        V6Operation::ADDImm { imm, n, d } => ops.len() == 6 && moves(ops[0], local_arg("op"@), reg_arg(n)) && computes(
            ops[1],
            0,
            reg_arg(d),
            reg_arg(n),
            word_arg(imm),
        ) && sets_nz(ops, 2, d) && sets_cv(ops[4], ops[5], local_arg("op"@), word_arg(imm), false, false),
        V6Operation::ADDReg { m, n, d } => ops.len() == 7 && moves(ops[0], local_arg("m"@), reg_arg(m)) && moves(
            ops[1],
            local_arg("n"@),
            reg_arg(n),
        ) && computes(ops[2], 0, reg_arg(d), reg_arg(n), reg_arg(m)) && sets_nz(ops, 3, d) && sets_cv(
            ops[5],
            ops[6],
            local_arg("n"@),
            local_arg("m"@),
            false,
            false,
        ),
        V6Operation::ADDRegSP { d, m } => ops.len() == 1 && computes(
            ops[0],
            0,
            reg_arg(d),
            reg_arg(Register::SP),
            reg_arg(m),
        ),
        V6Operation::ASRImm { imm, m, d } => ops.len() == 5 && moves(ops[0], local_arg("m"@), reg_arg(m)) && computes(
            ops[1],
            6,
            reg_arg(d),
            reg_arg(m),
            word_arg(imm),
        ) && sets_nz(ops, 2, d) && sets_c_sra(ops[4], "m"@, word_arg(imm)),
        V6Operation::ASRReg { m, dn } => ops.len() == 6 && moves(ops[0], local_arg("n"@), reg_arg(dn)) && computes(
            ops[1],
            3,
            local_arg("shift"@),
            reg_arg(m),
            word_arg(0xff),
        ) && computes(ops[2], 6, reg_arg(dn), reg_arg(dn), local_arg("shift"@)) && sets_nz(ops, 3, dn) && sets_c_sra(
            ops[5],
            "n"@,
            local_arg("shift"@),
        ),
        V6Operation::LSLReg { m, dn } => ops.len() == 4 && computes(
            ops[0],
            3,
            local_arg("shift"@),
            reg_arg(m),
            word_arg(0xff),
        ) && computes(ops[1], 4, reg_arg(dn), reg_arg(dn), local_arg("shift"@)) && sets_nz(ops, 2, dn),
        V6Operation::LSRReg { m, dn } => ops.len() == 4 && computes(
            ops[0],
            3,
            local_arg("shift"@),
            reg_arg(m),
            word_arg(0xff),
        ) && computes(ops[1], 5, reg_arg(dn), reg_arg(dn), local_arg("shift"@)) && sets_nz(ops, 2, dn),
        V6Operation::BICReg { m, dn } => ops.len() == 2 && (match ops[0] {
            Operation::Not { destination, operand } => is_local(destination, "mask"@) && is_register(operand, m),
            _ => false,
        }) && computes(ops[1], 3, reg_arg(dn), reg_arg(dn), local_arg("mask"@)),
        V6Operation::ADR { d, imm } => ops.len() == 3 && moves(ops[0], local_arg("addr"@), reg_arg(Register::PC))
            && computes(ops[1], 3, local_arg("addr"@), local_arg("addr"@), word_arg(!3u32)) && computes(
            ops[2],
            0,
            reg_arg(d),
            local_arg("addr"@),
            word_arg(imm.wrapping_add(2)),
        ),
        V6Operation::BL { imm } => ops.len() == 4 && moves(ops[0], local_arg("PC"@), reg_arg(Register::PC)) && moves(
            ops[1],
            reg_arg(Register::LR),
            local_arg("PC"@),
        ) && computes(ops[2], 0, local_arg("newPC"@), local_arg("PC"@), word_arg(imm)) && moves(
            ops[3],
            reg_arg(Register::PC),
            local_arg("newPC"@),
        ),
        V6Operation::LDRLiteral { t, imm } => ops.len() == 3 && computes(
            ops[0],
            3,
            local_arg("addr"@),
            reg_arg(Register::PC),
            word_arg(!3u32),
        ) && computes(ops[1], 0, local_arg("addr"@), local_arg("addr"@), word_arg(imm)) && moves(
            ops[2],
            reg_arg(t),
            memory_arg("addr"@),
        ),
        V6Operation::REV { m, d } => reverses(
            ops,
            m,
            d,
            seq![0x0000_00ffu32, 0x0000_ff00u32, 0x00ff_0000u32, 0xff00_0000u32],
            seq![(true, 24u32), (true, 8u32), (false, 8u32), (false, 24u32)],
            false,
        ),
        V6Operation::REV16 { m, d } => reverses(
            ops,
            m,
            d,
            seq![0x0000_00ffu32, 0x0000_ff00u32, 0x00ff_0000u32, 0xff00_0000u32],
            seq![(true, 8u32), (false, 8u32), (true, 8u32), (false, 8u32)],
            false,
        ),
        V6Operation::REVSH { m, d } => reverses(
            ops,
            m,
            d,
            seq![0x0000_00ffu32, 0x0000_ff00u32],
            seq![(true, 8u32), (false, 8u32)],
            true,
        ),
        V6Operation::NOP | V6Operation::BKPT { .. } | V6Operation::CPS { .. } | V6Operation::DMB { .. }
        | V6Operation::DSB { .. } | V6Operation::ISB { .. } => ops.len() == 0,
        _ => false,
    }
}

/// Loads `bits` bits at `n + offset` into `t`, then extends them to a word.
fn load(n: &Register, offset: Operand, t: &Register, bits: u32, extend: u8) -> (r: Vec<Operation>)
    ensures
        loads(r@, *n, offset, *t, bits, extend),
{
    let mut ops: Vec<Operation> = vec![
        Operation::Add { destination: local("addr"), operand1: reg(n), operand2: offset },
        Operation::Move { destination: reg(t), source: Operand::AddressInLocal("addr".to_owned(), bits) },
    ];
    if extend == 1 {
        ops.push(Operation::ZeroExtend { destination: reg(t), operand: reg(t), bits });
    } else if extend == 2 {
        ops.push(Operation::SignExtend { destination: reg(t), operand: reg(t), bits: 8 });
    }
    ops
}

/// The addition `d = n + m` of registers with its flag updates; the
/// operands are saved first so that `d` may be one of them.
fn add_registers(d: &Register, n: &Register, m: &Register) -> (r: Vec<Operation>)
    ensures
        r@.len() == 7,
        moves(r@[0], local_arg("m"@), reg_arg(*m)),
        moves(r@[1], local_arg("n"@), reg_arg(*n)),
        computes(r@[2], 0, reg_arg(*d), reg_arg(*n), reg_arg(*m)),
        sets_nz(r@, 3, *d),
        sets_cv(r@[5], r@[6], local_arg("n"@), local_arg("m"@), false, false),
{
    let n_local: Operand = local("n");
    let m_local: Operand = local("m");
    let dest: Operand = reg(d);
    vec![
        Operation::Move { destination: m_local.clone(), source: reg(m) },
        Operation::Move { destination: n_local.clone(), source: reg(n) },
        Operation::Add { destination: dest.clone(), operand1: reg(n), operand2: reg(m) },
        Operation::SetNFlag(dest.clone()),
        Operation::SetZFlag(dest),
        Operation::SetCFlag { operand1: n_local.clone(), operand2: m_local.clone(), sub: false, carry: false },
        Operation::SetVFlag { operand1: n_local, operand2: m_local, sub: false, carry: false },
    ]
}

/// The flag updates of a comparison of `n` with `m` (`sub`) or of `n + m`.
fn compare(n: Operand, m: Operand, sub: bool) -> (r: Vec<Operation>)
    ensures
        compares(r@, n, m, sub),
{
    let result: Operand = local("result");
    let first: Operation = if sub {
        Operation::Sub { destination: result.clone(), operand1: n.clone(), operand2: m.clone() }
    } else {
        Operation::Add { destination: result.clone(), operand1: n.clone(), operand2: m.clone() }
    };
    vec![
        first,
        Operation::SetNFlag(result.clone()),
        Operation::SetZFlag(result),
        Operation::SetCFlag { operand1: n.clone(), operand2: m.clone(), sub, carry: false },
        Operation::SetVFlag { operand1: n, operand2: m, sub, carry: false },
    ]
}

/// A shift of the kind `kind` (0 left, 1 logical right, 2 arithmetic right).
fn shift_op(kind: u8, destination: Operand, operand: Operand, shift: Operand) -> (r: Operation)
    ensures
        kind == 0 ==> r == (Operation::Sl { destination, operand, shift }),
        kind == 1 ==> r == (Operation::Srl { destination, operand, shift }),
        kind >= 2 ==> r == (Operation::Sra { destination, operand, shift }),
{
    if kind == 0 {
        Operation::Sl { destination, operand, shift }
    } else if kind == 1 {
        Operation::Srl { destination, operand, shift }
    } else {
        Operation::Sra { destination, operand, shift }
    }
}

/// A shift of `dn` by the low byte of `m`, with flag updates.
fn shift_by_register(kind: u8, m: &Register, dn: &Register) -> (r: Vec<Operation>)
    requires
        kind <= 2,
    ensures
        kind == 2 ==> r@.len() == 6 && moves(r@[0], local_arg("n"@), reg_arg(*dn)) && computes(
            r@[1],
            3,
            local_arg("shift"@),
            reg_arg(*m),
            word_arg(0xff),
        ) && computes(r@[2], 6, reg_arg(*dn), reg_arg(*dn), local_arg("shift"@)) && sets_nz(r@, 3, *dn) && sets_c_sra(
            r@[5],
            "n"@,
            local_arg("shift"@),
        ),
        kind < 2 ==> r@.len() == 4 && computes(r@[0], 3, local_arg("shift"@), reg_arg(*m), word_arg(0xff)) && computes(
            r@[1],
            4 + kind,
            reg_arg(*dn),
            reg_arg(*dn),
            local_arg("shift"@),
        ) && sets_nz(r@, 2, *dn),
{
    let shift: Operand = local("shift");
    let mut ops: Vec<Operation> = Vec::new();
    if kind == 2 {
        ops.push(Operation::Move { destination: local("n"), source: reg(dn) });
    }
    ops.push(Operation::And { destination: shift.clone(), operand1: reg(m), operand2: imm(0xff) });
    ops.push(shift_op(kind, reg(dn), reg(dn), shift.clone()));
    ops.push(Operation::SetNFlag(reg(dn)));
    ops.push(Operation::SetZFlag(reg(dn)));
    if kind == 2 {
        ops.push(Operation::SetCFlagSra { operand: local("n"), shift });
    }
    ops
}

/// Moves a list of registers to (`store`) or from memory from the address
/// in the local `Address`, a word at a time.
fn transfer_list(reg_list: &Vec<Register>, store: bool, ops: &mut Vec<Operation>)
    ensures
        final(ops)@.len() == old(ops)@.len() + 2 * reg_list@.len(),
        final(ops)@.subrange(0, old(ops)@.len() as int) == old(ops)@,
        transfers(final(ops)@, old(ops)@.len() as int, reg_list@, reg_list@.len() as int, store),
{
    let ghost start = ops@;
    let mut i: usize = 0;
    while i < reg_list.len()
        invariant
            i <= reg_list@.len(),
            ops@.len() == start.len() + 2 * i,
            ops@.subrange(0, start.len() as int) == start,
            transfers(ops@, start.len() as int, reg_list@, i as int, store),
        decreases reg_list.len() - i,
    {
        let ghost before = ops@;
        let memory: Operand = Operand::AddressInLocal("Address".to_owned(), 32);
        if store {
            ops.push(Operation::Move { destination: memory, source: reg(&reg_list[i]) });
        } else {
            ops.push(Operation::Move { destination: reg(&reg_list[i]), source: memory });
        }
        ops.push(Operation::Add { destination: local("Address"), operand1: local("Address"), operand2: imm(4) });
        proof {
            reveal_strlit("Address");
            assert(ops@.subrange(0, start.len() as int) =~= start);
            assert forall|j: int| 0 <= j < i + 1 implies #[trigger] transfer_step(
                ops@,
                start.len() as int,
                reg_list@,
                j,
                store,
            ) by {
                if j < i {
                    assert(transfer_step(before, start.len() as int, reg_list@, j, store));
                    assert(ops@[start.len() + 2 * j] == before[start.len() + 2 * j]);
                    assert(ops@[start.len() + 2 * j + 1] == before[start.len() + 2 * j + 1]);
                }
            }
            assert(transfers(ops@, start.len() as int, reg_list@, i as int + 1, store));
        }
        i = i + 1;
    }
}

/// Whether the register list holds `r`.
fn list_contains(reg_list: &Vec<Register>, r: &Register) -> (b: bool)
    ensures
        b == reg_list@.contains(*r),
{
    let mut i: usize = 0;
    while i < reg_list.len()
        invariant
            i <= reg_list@.len(),
            forall|j: int| 0 <= j < i ==> reg_list@[j] != *r,
        decreases reg_list.len() - i,
    {
        if reg_list[i] == *r {
            return true;
        }
        i = i + 1;
    }
    false
}

/// A transfer stays when operations are added after it.
proof fn lemma_transfers_push(
    ops: Seq<Operation>,
    x: Operation,
    start: int,
    reg_list: Seq<Register>,
    count: int,
    store: bool,
)
    requires
        0 <= start,
        start + 2 * count <= ops.len(),
        transfers(ops, start, reg_list, count, store),
    ensures
        transfers(ops.push(x), start, reg_list, count, store),
{
    assert forall|j: int| 0 <= j < count implies #[trigger] transfer_step(ops.push(x), start, reg_list, j, store) by {
        assert(transfer_step(ops, start, reg_list, j, store));
        assert(ops.push(x)[start + 2 * j] == ops[start + 2 * j]);
        assert(ops.push(x)[start + 2 * j + 1] == ops[start + 2 * j + 1]);
    }
}

/// Reverses the bytes of `m` into `d`: each mask picks a byte, which is
/// shifted by its distance and or:ed into `d`.
fn byte_reverse(m: &Register, d: &Register, masks: &[u32], shifts: &[(bool, u32)], sign_extend: bool) -> (r: Vec<Operation>)
    requires
        masks@.len() == shifts@.len(),
        masks@.len() <= 4,
    ensures
        reverses(r@, *m, *d, masks@, shifts@, sign_extend),
{
    let names: [&str; 4] = ["b1", "B2", "B3", "B4"];
    let ghost k: int = masks@.len() as int;
    proof {
        assert(forall|j: int| 0 <= j < 4 ==> (#[trigger] names@[j])@ == byte_local(j));
    }
    let mut ops: Vec<Operation> = vec![Operation::Move { destination: reg(d), source: imm(0) }];
    let mut i: usize = 0;
    while i < masks.len()
        invariant
            masks@.len() == shifts@.len(),
            k == masks@.len(),
            k <= 4,
            forall|j: int| 0 <= j < 4 ==> (#[trigger] names@[j])@ == byte_local(j),
            i <= k,
            ops@.len() == 1 + i,
            moves(ops@[0], reg_arg(*d), word_arg(0)),
            forall|j: int| 0 <= j < i ==> computes(ops@[1 + j], 3, local_arg(#[trigger] byte_local(j)), reg_arg(*m), word_arg(masks@[j])),
        decreases masks.len() - i,
    {
        ops.push(Operation::And { destination: local(names[i]), operand1: reg(m), operand2: imm(masks[i]) });
        proof {
            assert(names@[i as int]@ == byte_local(i as int));
        }
        i = i + 1;
    }
    let mut i: usize = 0;
    while i < shifts.len()
        invariant
            masks@.len() == shifts@.len(),
            k == masks@.len(),
            k <= 4,
            forall|j: int| 0 <= j < 4 ==> (#[trigger] names@[j])@ == byte_local(j),
            i <= k,
            ops@.len() == 1 + k + i,
            moves(ops@[0], reg_arg(*d), word_arg(0)),
            forall|j: int| 0 <= j < k ==> computes(ops@[1 + j], 3, local_arg(#[trigger] byte_local(j)), reg_arg(*m), word_arg(masks@[j])),
            forall|j: int| 0 <= j < i ==> computes(
                ops@[1 + k + j],
                if shifts@[j].0 { 4int } else { 5int },
                local_arg(#[trigger] byte_local(j)),
                local_arg(byte_local(j)),
                word_arg(shifts@[j].1),
            ),
        decreases shifts.len() - i,
    {
        let (left, amount) = shifts[i];
        let b: Operand = local(names[i]);
        if left {
            ops.push(Operation::Sl { destination: b.clone(), operand: b, shift: imm(amount) });
        } else {
            ops.push(Operation::Srl { destination: b.clone(), operand: b, shift: imm(amount) });
        }
        proof {
            assert(names@[i as int]@ == byte_local(i as int));
        }
        i = i + 1;
    }
    let mut i: usize = 0;
    while i < masks.len()
        invariant
            masks@.len() == shifts@.len(),
            k == masks@.len(),
            k <= 4,
            forall|j: int| 0 <= j < 4 ==> (#[trigger] names@[j])@ == byte_local(j),
            i <= k,
            ops@.len() == 1 + 2 * k + i,
            moves(ops@[0], reg_arg(*d), word_arg(0)),
            forall|j: int| 0 <= j < k ==> computes(ops@[1 + j], 3, local_arg(#[trigger] byte_local(j)), reg_arg(*m), word_arg(masks@[j])),
            forall|j: int| 0 <= j < k ==> computes(
                ops@[1 + k + j],
                if shifts@[j].0 { 4int } else { 5int },
                local_arg(#[trigger] byte_local(j)),
                local_arg(byte_local(j)),
                word_arg(shifts@[j].1),
            ),
            forall|j: int| 0 <= j < i ==> computes(ops@[1 + 2 * k + j], 7, reg_arg(*d), reg_arg(*d), local_arg(#[trigger] byte_local(j))),
        decreases masks.len() - i,
    {
        ops.push(Operation::Or { destination: reg(d), operand1: reg(d), operand2: local(names[i]) });
        proof {
            assert(names@[i as int]@ == byte_local(i as int));
        }
        i = i + 1;
    }
    if sign_extend {
        ops.push(Operation::SignExtend { destination: reg(d), operand: reg(d), bits: 16 });
    }
    ops
}

/// The bytes a register list takes on the stack, four a register, as a
/// 32-bit word.
fn list_bytes(reg_list: &Vec<Register>) -> (r: u32)
    ensures
        r == (4 * reg_list@.len()) as u32,
{
    let n: usize = reg_list.len();
    let low: u32 = (n % 0x4000_0000) as u32;
    let r: u32 = low * 4;
    assert(r == (4 * n) as u32) by (bit_vector)
        requires
            low == (n % 0x4000_0000) as u32,
            r == low * 4,
    ;
    r
}

/// The operations of loads, stack transfers and byte reversals.
#[verifier::spinoff_prover]
#[verifier::rlimit(60)]
fn memory_operations(op: &V6Operation) -> (r: Vec<Operation>)
    requires
        v6_supported(*op),
        op is LDM || op is LDRBImm || op is LDRBReg || op is LDRHImm || op is LDRHReg || op is LDRImm || op is LDRLiteral || op is LDRReg || op is LDRSBReg || op is LDRSH || op is POP || op is PUSH || op is REV || op is REV16 || op is REVSH,
    ensures
        translation_of(*op, r@),
{
    match op {
        V6Operation::LDM { n, reg_list } => {
            let mut ops: Vec<Operation> = vec![Operation::Move { destination: local("Address"), source: reg(n) }];
            transfer_list(reg_list, true, &mut ops);
            if list_contains(reg_list, n) {
                let ghost before = ops@;
                ops.push(Operation::Move { destination: reg(n), source: local("Address") });
                proof {
                    lemma_transfers_push(before, ops@.last(), 1, reg_list@, reg_list@.len() as int, true);
                    assert(before.push(ops@.last()) =~= ops@);
                }
            }
            ops
        },
        V6Operation::LDRImm { imm: i, n, t } => load(n, imm(*i), t, 32, 0),
        V6Operation::LDRLiteral { t, imm: i } => vec![
            Operation::And { destination: local("addr"), operand1: reg(&Register::PC), operand2: imm(!3u32) },
            Operation::Add { destination: local("addr"), operand1: local("addr"), operand2: imm(*i) },
            Operation::Move { destination: reg(t), source: Operand::AddressInLocal("addr".to_owned(), 32) },
        ],
        V6Operation::LDRReg { m, n, t } => load(n, reg(m), t, 32, 0),
        V6Operation::LDRBImm { imm: i, n, t } => load(n, imm(*i), t, 8, 1),
        V6Operation::LDRBReg { m, n, t } => load(n, reg(m), t, 8, 1),
        V6Operation::LDRHImm { imm: i, n, t } => load(n, imm(*i), t, 16, 1),
        V6Operation::LDRHReg { m, n, t } => load(n, reg(m), t, 16, 1),
        V6Operation::LDRSBReg { m, n, t } => load(n, reg(m), t, 8, 2),
        V6Operation::LDRSH { m, n, t } => load(n, reg(m), t, 16, 2),
        V6Operation::POP { reg_list } => {
            let bytes: u32 = list_bytes(reg_list);
            let mut ops: Vec<Operation> = vec![
                Operation::Move { destination: local("Address"), source: reg(&Register::SP) },
            ];
            transfer_list(reg_list, false, &mut ops);
            let ghost before = ops@;
            ops.push(Operation::Add { destination: reg(&Register::SP), operand1: reg(&Register::SP), operand2: imm(bytes) });
            proof {
                lemma_transfers_push(before, ops@.last(), 1, reg_list@, reg_list@.len() as int, false);
                assert(before.push(ops@.last()) =~= ops@);
            }
            ops
        },
        V6Operation::PUSH { reg_list } => {
            let bytes: u32 = list_bytes(reg_list);
            let mut ops: Vec<Operation> = vec![
                Operation::Sub { destination: local("Address"), operand1: reg(&Register::SP), operand2: imm(bytes) },
            ];
            transfer_list(reg_list, true, &mut ops);
            let ghost before = ops@;
            ops.push(Operation::Sub { destination: reg(&Register::SP), operand1: reg(&Register::SP), operand2: imm(bytes) });
            proof {
                lemma_transfers_push(before, ops@.last(), 1, reg_list@, reg_list@.len() as int, true);
                assert(before.push(ops@.last()) =~= ops@);
            }
            ops
        },
        V6Operation::REV { m, d } => byte_reverse(
            m,
            d,
            &[0x0000_00ff, 0x0000_ff00, 0x00ff_0000, 0xff00_0000],
            &[(true, 24), (true, 8), (false, 8), (false, 24)],
            false,
        ),
        V6Operation::REV16 { m, d } => byte_reverse(
            m,
            d,
            &[0x0000_00ff, 0x0000_ff00, 0x00ff_0000, 0xff00_0000],
            &[(true, 8), (false, 8), (true, 8), (false, 8)],
            false,
        ),
        V6Operation::REVSH { m, d } => byte_reverse(m, d, &[0x0000_00ff, 0x0000_ff00], &[(true, 8), (false, 8)], true),
        _ => Vec::new(),
    }
}

/// The operations of branches, system instructions and `ADR`.
#[verifier::spinoff_prover]
#[verifier::rlimit(60)]
fn control_operations(op: &V6Operation) -> (r: Vec<Operation>)
    requires
        v6_supported(*op),
        op is ADR || op is B || op is BKPT || op is BL || op is BLXReg || op is BX || op is CPS || op is DMB || op is DSB || op is ISB || op is MRS || op is MSRReg || op is NOP,
    ensures
        translation_of(*op, r@),
{
    match op {
        V6Operation::ADR { d, imm: i } => vec![
            Operation::Move { destination: local("addr"), source: reg(&Register::PC) },
            Operation::And { destination: local("addr"), operand1: local("addr"), operand2: imm(!3u32) },
            Operation::Add { destination: reg(d), operand1: local("addr"), operand2: imm(i.wrapping_add(2)) },
        ],
        V6Operation::B { cond, imm: i } => vec![
            Operation::Add { destination: local("new_pc"), operand1: reg(&Register::PC), operand2: imm(i.wrapping_add(2)) },
            Operation::ConditionalJump { destination: local("new_pc"), condition: arm_cond_to_ga_cond(cond) },
        ],
        V6Operation::BKPT { .. } => Vec::new(),
        V6Operation::BL { imm: i } => vec![
            Operation::Move { destination: local("PC"), source: reg(&Register::PC) },
            Operation::Move { destination: reg(&Register::LR), source: local("PC") },
            Operation::Add { destination: local("newPC"), operand1: local("PC"), operand2: imm(*i) },
            Operation::Move { destination: reg(&Register::PC), source: local("newPC") },
        ],
        V6Operation::BLXReg { m } => vec![
            Operation::Move { destination: reg(&Register::LR), source: reg(&Register::PC) },
            Operation::Move { destination: reg(&Register::PC), source: reg(m) },
        ],
        V6Operation::BX { m } => vec![Operation::Move { destination: reg(&Register::PC), source: reg(m) }],
        V6Operation::CPS { .. } => Vec::new(),
        V6Operation::DMB { .. } => Vec::new(),
        V6Operation::DSB { .. } => Vec::new(),
        V6Operation::ISB { .. } => Vec::new(),
        V6Operation::MRS { d, sysm } => vec![
            Operation::Move { destination: reg(d), source: arm_special_register_to_operand(sysm) },
        ],
        V6Operation::MSRReg { n, sysm } => vec![
            Operation::Move { destination: arm_special_register_to_operand(sysm), source: reg(n) },
        ],
        V6Operation::NOP => Vec::new(),
        _ => Vec::new(),
    }
}

/// The operations of arithmetic, logic, moves and extensions.
#[verifier::spinoff_prover]
#[verifier::rlimit(60)]
fn data_operations(op: &V6Operation) -> (r: Vec<Operation>)
    requires
        v6_supported(*op),
        op is ADCReg || op is ADDImm || op is ADDImmSP || op is ADDReg || op is ADDRegSP || op is ANDReg || op is ASRImm || op is ASRReg || op is BICReg || op is CMNReg || op is CMPImm || op is CMPReg || op is EORReg || op is LSLImm || op is LSLReg || op is LSRImm || op is LSRReg || op is MOVImm || op is MOVReg || op is MUL || op is MVNReg || op is ORRReg || op is SUBImmSP || op is UXTB,
    ensures
        translation_of(*op, r@),
{
    match op {
        V6Operation::ADCReg { m, n, d } => {
            let (dest, mreg, nreg) = (reg(d), reg(m), reg(n));
            vec![
                Operation::Adc { destination: dest.clone(), operand1: nreg.clone(), operand2: mreg.clone() },
                Operation::SetNFlag(dest.clone()),
                Operation::SetZFlag(dest),
                Operation::SetCFlag { operand1: nreg.clone(), operand2: mreg.clone(), sub: false, carry: true },
                Operation::SetVFlag { operand1: nreg, operand2: mreg, sub: false, carry: true },
            ]
        },
        V6Operation::ADDImm { imm: i, n, d } => {
            let (dest, nreg, op_local, value) = (reg(d), reg(n), local("op"), imm(*i));
            vec![
                Operation::Move { destination: op_local.clone(), source: nreg.clone() },
                Operation::Add { destination: dest.clone(), operand1: nreg, operand2: value.clone() },
                Operation::SetNFlag(dest.clone()),
                Operation::SetZFlag(dest),
                Operation::SetCFlag { operand1: op_local.clone(), operand2: value.clone(), sub: false, carry: false },
                Operation::SetVFlag { operand1: op_local, operand2: value, sub: false, carry: false },
            ]
        },
        V6Operation::ADDReg { m, n, d } => add_registers(d, n, m),
        V6Operation::ADDImmSP { d, imm: i } => vec![
            Operation::Add { destination: reg(d), operand1: reg(&Register::SP), operand2: imm(*i) },
        ],
        V6Operation::ADDRegSP { d, m } => vec![
            Operation::Add { destination: reg(d), operand1: reg(&Register::SP), operand2: reg(m) },
        ],
        V6Operation::ANDReg { m, dn } => with_nz(
            Operation::And { destination: reg(dn), operand1: reg(dn), operand2: reg(m) },
            &reg(dn),
        ),
        V6Operation::ASRImm { imm: i, m, d } => vec![
            Operation::Move { destination: local("m"), source: reg(m) },
            Operation::Sra { destination: reg(d), operand: reg(m), shift: imm(*i) },
            Operation::SetNFlag(reg(d)),
            Operation::SetZFlag(reg(d)),
            Operation::SetCFlagSra { operand: local("m"), shift: imm(*i) },
        ],
        V6Operation::ASRReg { m, dn } => shift_by_register(2, m, dn),
        V6Operation::BICReg { m, dn } => vec![
            Operation::Not { destination: local("mask"), operand: reg(m) },
            Operation::And { destination: reg(dn), operand1: reg(dn), operand2: local("mask") },
        ],
        V6Operation::CMNReg { m, n } => compare(reg(n), reg(m), false),
        V6Operation::CMPImm { n, imm: i } => compare(reg(n), imm(*i), true),
        V6Operation::CMPReg { m, n } => compare(reg(n), reg(m), true),
        V6Operation::EORReg { m, dn } => with_nz(
            Operation::Xor { destination: reg(dn), operand1: reg(dn), operand2: reg(m) },
            &reg(dn),
        ),
        V6Operation::LSLImm { imm: i, m, d } => with_nz(
            Operation::Sl { destination: reg(d), operand: reg(m), shift: imm(*i) },
            &reg(d),
        ),
        V6Operation::LSLReg { m, dn } => shift_by_register(0, m, dn),
        V6Operation::LSRImm { imm: i, m, d } => with_nz(
            Operation::Srl { destination: reg(d), operand: reg(m), shift: imm(*i) },
            &reg(d),
        ),
        V6Operation::LSRReg { m, dn } => shift_by_register(1, m, dn),
        V6Operation::MOVImm { d, imm: i } => with_nz(
            Operation::Move { destination: reg(d), source: imm(*i) },
            &reg(d),
        ),
        V6Operation::MOVReg { m, d, set_flags } => {
            let mv: Operation = Operation::Move { destination: reg(d), source: reg(m) };
            if *set_flags {
                with_nz(mv, &reg(d))
            } else {
                vec![mv]
            }
        },
        V6Operation::MUL { n, dm } => with_nz(
            Operation::Mul { destination: reg(dm), operand1: reg(n), operand2: reg(dm) },
            &reg(dm),
        ),
        V6Operation::MVNReg { m, d } => with_nz(Operation::Not { destination: reg(d), operand: reg(m) }, &reg(d)),
        V6Operation::ORRReg { m, dn } => with_nz(
            Operation::Or { destination: reg(dn), operand1: reg(dn), operand2: reg(m) },
            &reg(dn),
        ),
        V6Operation::SUBImmSP { imm: i } => vec![
            Operation::Sub { destination: reg(&Register::SP), operand1: reg(&Register::SP), operand2: imm(*i) },
        ],
        V6Operation::UXTB { m, d } => vec![
            Operation::ZeroExtend { destination: reg(d), operand: reg(m), bits: 8 },
        ],
        _ => Vec::new(),
    }
}

/// The general assembly operations of an operation.
fn v6_operations(op: &V6Operation) -> (r: Vec<Operation>)
    requires
        v6_supported(*op),
    ensures
        translation_of(*op, r@),
{
    match op {
        V6Operation::LDM { .. } | V6Operation::LDRBImm { .. } | V6Operation::LDRBReg { .. } | V6Operation::LDRHImm { .. } | V6Operation::LDRHReg { .. } | V6Operation::LDRImm { .. } | V6Operation::LDRLiteral { .. } | V6Operation::LDRReg { .. } | V6Operation::LDRSBReg { .. } | V6Operation::LDRSH { .. } | V6Operation::POP { .. } | V6Operation::PUSH { .. } | V6Operation::REV { .. } | V6Operation::REV16 { .. } | V6Operation::REVSH { .. } => memory_operations(op),
        V6Operation::ADR { .. } | V6Operation::B { .. } | V6Operation::BKPT { .. } | V6Operation::BL { .. } | V6Operation::BLXReg { .. } | V6Operation::BX { .. } | V6Operation::CPS { .. } | V6Operation::DMB { .. } | V6Operation::DSB { .. } | V6Operation::ISB { .. } | V6Operation::MRS { .. } | V6Operation::MSRReg { .. } | V6Operation::NOP => control_operations(op),
        _ => data_operations(op),
    }
}

/// Translates an instruction to general assembly, with its Cortex-M0+
/// cycle count; an operation without a translation is refused.
pub fn translate_v6(instruction: &V6Instruction) -> (r: Result<Instruction, ArchError>)
    ensures
        r is Ok <==> v6_supported(instruction.operation),
        r matches Ok(i) ==> i.instruction_size == v6_size(instruction.operation) && i.max_cycle
            == cycles_m0plus(instruction.operation) && translation_of(instruction.operation, i.operations@),
        r matches Err(e) ==> e == ArchError::ParsingError(ParseError::InvalidInstruction),
{
    let op: &V6Operation = &instruction.operation;
    let supported: bool = match op {
        V6Operation::CPY | V6Operation::WFE | V6Operation::WFI | V6Operation::YIELD | V6Operation::UDF { .. }
        | V6Operation::RORReg { .. } | V6Operation::RSBImm { .. } | V6Operation::SBCReg { .. }
        | V6Operation::SEV | V6Operation::STM { .. } | V6Operation::STRImm { .. } | V6Operation::STRReg { .. }
        | V6Operation::STRBImm { .. } | V6Operation::STRBReg { .. } | V6Operation::STRHImm { .. }
        | V6Operation::STRHReg { .. } | V6Operation::SUBImm { .. } | V6Operation::SUBReg { .. }
        | V6Operation::SVC { .. } | V6Operation::SXTB { .. } | V6Operation::SXTH { .. }
        | V6Operation::TSTReg { .. } | V6Operation::UXTH { .. } => false,
        _ => true,
    };
    if !supported {
        return Err(ArchError::ParsingError(ParseError::InvalidInstruction));
    }
    let size: u32 = match op {
        V6Operation::BL { .. } | V6Operation::DMB { .. } | V6Operation::DSB { .. } | V6Operation::ISB { .. }
        | V6Operation::MRS { .. } | V6Operation::MSRReg { .. } => 32,
        _ => 16,
    };
    Ok(Instruction {
        instruction_size: size,
        operations: v6_operations(op),
        max_cycle: cycle_count_m0plus_core(op),
    })
}

} // verus!
