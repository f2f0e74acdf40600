//! The executor: runs the instructions of a path, forking where a branch
//! condition can go both ways.
use vstd::prelude::*;
use vstd::string::StringExecFns;
use vstd::arithmetic::power2::lemma2_to64;
use crate::general_assembly::condition::Condition;
use crate::general_assembly::operand::{DataWord, Operand};
use crate::general_assembly::operation::Operation;
use crate::general_assembly::shift::Shift;
use crate::memory::MemoryError;
use crate::smt::bits::{p, lemma_p_facts, lemma_p_mono, from_signed, to_signed, srem_int};
use crate::smt::expr::{BinOp, DExpr, Env, zero_env, apply_binary, bin_sem, bin_widths_ok, bit, const_of,
    lemma_eval_range, sign_extend};
use crate::smt::solver::{DSolver, Solutions, SolverError};
use crate::symex::executor::{add_with_carry, count_leading_ones, count_leading_zeroes, count_ones,
    count_zeroes, complement, leading_ones, popcount, signed_overflow, signed_overflow_with_carry, bit_of};
use crate::symex::instruction::Instruction;
use crate::symex::named::NamedExprs;
use crate::symex::path_selection::Path;
use crate::symex::project::{MemoryReadHook, MemoryWriteHook, PCHook, IntrinsicHook, Project, RegisterReadHook,
    ProjectError, last_named};
use crate::symex::state::{ContinueInsideInstruction, GAState, HookOrInstruction, Variable, owned, values_wf};
use crate::symex::types::GAError;

verus! {

/// How a path ended.
#[derive(Debug)]
pub enum PathResult {
    /// The path returned successfully.
    Success(Option<DExpr>),
    /// The path reached a failure, for this reason.
    Faliure(&'static str),
    /// An assumption on the path cannot hold.
    AssumptionUnsat,
    /// The path was dropped.
    Suppress,
}

/// The binary operator of an operation, with its destination and operands.
pub open spec fn binary_parts(op: Operation) -> Option<(BinOp, Operand, Operand, Operand)> {
    match op {
        Operation::Add { destination, operand1, operand2 } => Some((BinOp::Add, destination, operand1, operand2)),
        Operation::Sub { destination, operand1, operand2 } => Some((BinOp::Sub, destination, operand1, operand2)),
        Operation::Mul { destination, operand1, operand2 } => Some((BinOp::Mul, destination, operand1, operand2)),
        Operation::SDiv { destination, operand1, operand2 } => Some((BinOp::SDiv, destination, operand1, operand2)),
        Operation::UDiv { destination, operand1, operand2 } => Some((BinOp::UDiv, destination, operand1, operand2)),
        Operation::And { destination, operand1, operand2 } => Some((BinOp::And, destination, operand1, operand2)),
        Operation::Or { destination, operand1, operand2 } => Some((BinOp::Or, destination, operand1, operand2)),
        Operation::Xor { destination, operand1, operand2 } => Some((BinOp::Xor, destination, operand1, operand2)),
        Operation::Sl { destination, operand, shift } => Some((BinOp::Shl, destination, operand, shift)),
        Operation::Srl { destination, operand, shift } => Some((BinOp::LShr, destination, operand, shift)),
        Operation::Sra { destination, operand, shift } => Some((BinOp::AShr, destination, operand, shift)),
        _ => None,
    }
}

/// Whether an operand can be read without memory, hooks or a fresh value:
/// an immediate, a written register without a read hook, or a bound local.
pub open spec fn plain_source(s: GAState, local: NamedExprs, o: Operand) -> bool {
    match o {
        Operand::Immediate(_) => true,
        Operand::Register(r) => match last_named(s.project.register_read_hooks(), r@) {
            None => s.registers.contains(r@),
            Some(h) => s.hook_readable(h),
        },
        Operand::Local(k) => local.contains(k@),
        _ => false,
    }
}

/// The value of a plain operand under `env`.
pub open spec fn source_value(s: GAState, local: NamedExprs, o: Operand, env: Env) -> nat {
    match o {
        Operand::Immediate(d) => d.value(),
        Operand::Register(r) => match last_named(s.project.register_read_hooks(), r@) {
            None => s.registers.lookup(r@).eval(env),
            Some(h) => s.hook_value(h, env),
        },
        Operand::Local(k) => local.lookup(k@).eval(env),
        _ => 0,
    }
}

/// The width of a plain operand in bits.
pub open spec fn source_width(s: GAState, local: NamedExprs, o: Operand) -> nat {
    match o {
        Operand::Immediate(d) => d.bits(),
        Operand::Register(r) => match last_named(s.project.register_read_hooks(), r@) {
            None => s.registers.lookup(r@).width(),
            Some(h) => s.hook_width(h),
        },
        Operand::Local(k) => local.lookup(k@).width(),
        _ => 0,
    }
}

/// Whether a destination can be written without memory or hooks: a
/// register other than `PC` without a write hook, or a local.
pub open spec fn plain_destination(s: GAState, d: Operand) -> bool {
    match d {
        Operand::Register(r) => last_named(s.project.register_write_hooks(), r@) is None && r@ != "PC"@,
        Operand::Local(_) => true,
        _ => false,
    }
}

/// The value a plain destination holds under `env`.
pub open spec fn destination_value(s: GAState, local: NamedExprs, d: Operand, env: Env) -> nat {
    match d {
        Operand::Register(r) => s.registers.lookup(r@).eval(env),
        Operand::Local(k) => local.lookup(k@).eval(env),
        _ => 0,
    }
}

/// Whether the plain destination `d` is bound after a write.
pub open spec fn destination_bound(s: GAState, local: NamedExprs, d: Operand) -> bool {
    match d {
        Operand::Register(r) => s.registers.contains(r@),
        Operand::Local(k) => local.contains(k@),
        _ => false,
    }
}

/// A write of `d` changed nothing else: the other registers and locals keep
/// their values, and flags, memory, constraints and the program counter are
/// unchanged.
pub open spec fn write_frame(before: GAState, lb: NamedExprs, after: GAState, la: NamedExprs, d: Operand) -> bool {
    &&& after.flag_map() == before.flag_map()
    &&& after.memory == before.memory
    &&& after.constraints == before.constraints
    &&& after.pc() == before.pc()
    &&& forall|k: Seq<char>| !(d matches Operand::Register(r) && r@ == k) && before.registers.contains(k) ==> (
        #[trigger] after.registers.contains(k) && after.registers.lookup(k) == before.registers.lookup(k))
    &&& forall|k: Seq<char>| !(d matches Operand::Local(n) && n@ == k) && lb.contains(k) ==> (
        #[trigger] la.contains(k) && la.lookup(k) == lb.lookup(k))
}

/// Whether an operation only reads plain operands of one width and writes a
/// plain destination, where its effect is stated exactly.
pub open spec fn plain_operation(s: GAState, local: NamedExprs, op: Operation) -> bool {
    let w = s.project.word_bits();
    match op {
        Operation::Nop => true,
        Operation::Move { destination, source } => plain_source(s, local, source) && plain_destination(s, destination)
            && 1 <= source_width(s, local, source) <= 64,
        Operation::Not { destination, operand } => plain_source(s, local, operand) && plain_destination(s, destination)
            && 1 <= source_width(s, local, operand) <= 64,
        Operation::Adc { destination, operand1, operand2 } => plain_source(s, local, operand1)
            && plain_source(s, local, operand2) && plain_destination(s, destination)
            && source_width(s, local, operand1) == w && source_width(s, local, operand2) == w,
        Operation::SetNFlag(operand) => plain_source(s, local, operand) && source_width(s, local, operand) == w,
        Operation::SetZFlag(operand) => plain_source(s, local, operand) && source_width(s, local, operand) == w,
        Operation::SetCFlag { operand1, operand2, sub, carry } => plain_source(s, local, operand1)
            && plain_source(s, local, operand2) && source_width(s, local, operand1) == w
            && source_width(s, local, operand2) == w,
        Operation::SetVFlag { operand1, operand2, sub, carry } => plain_source(s, local, operand1)
            && plain_source(s, local, operand2) && source_width(s, local, operand1) == w
            && source_width(s, local, operand2) == w,
        Operation::SetCFlagShiftLeft { operand, shift } => plain_source(s, local, operand) && plain_source(s, local, shift)
            && source_width(s, local, operand) == w && source_width(s, local, shift) == w && w < 64,
        Operation::SetCFlagSrl { operand, shift } => plain_source(s, local, operand) && plain_source(s, local, shift)
            && source_width(s, local, operand) == w && source_width(s, local, shift) == w && w < 64,
        Operation::SetCFlagSra { operand, shift } => plain_source(s, local, operand) && plain_source(s, local, shift)
            && source_width(s, local, operand) == w && source_width(s, local, shift) == w && w < 64,
        Operation::SetCFlagRor(operand) => plain_source(s, local, operand) && source_width(s, local, operand) == w,
        Operation::Shift { destination, operand, shift_n, shift_t } => plain_source(s, local, operand) && plain_source(
            s,
            local,
            shift_n,
        ) && plain_destination(s, destination) && source_width(s, local, operand) == source_width(s, local, shift_n) && (
        shift_t is Ror ==> source_width(s, local, operand) == w),
        Operation::Sror { destination, operand, shift } => plain_source(s, local, operand) && plain_source(s, local, shift)
            && plain_destination(s, destination) && source_width(s, local, operand) == w && source_width(s, local, shift)
            == w,
        Operation::ConditionalExecution { .. } => true,
        Operation::CountOnes { destination, operand } => plain_source(s, local, operand) && plain_destination(s, destination)
            && source_width(s, local, operand) == w,
        Operation::CountZeroes { destination, operand } => plain_source(s, local, operand) && plain_destination(s, destination)
            && source_width(s, local, operand) == w,
        Operation::CountLeadingOnes { destination, operand } => plain_source(s, local, operand)
            && plain_destination(s, destination) && source_width(s, local, operand) == w,
        Operation::CountLeadingZeroes { destination, operand } => plain_source(s, local, operand)
            && plain_destination(s, destination) && source_width(s, local, operand) == w,
        Operation::ZeroExtend { destination, operand, bits } => plain_source(s, local, operand)
            && plain_destination(s, destination) && 1 <= bits <= w && 1 <= source_width(s, local, operand) <= 64,
        Operation::SignExtend { destination, operand, bits } => plain_source(s, local, operand)
            && plain_destination(s, destination) && 1 <= bits <= w && 1 <= source_width(s, local, operand) <= 64,
        Operation::Resize { destination, operand, bits } => plain_source(s, local, operand)
            && plain_destination(s, destination) && 1 <= bits <= 64 && 1 <= source_width(s, local, operand) <= 64,
        _ => match binary_parts(op) {
            Some((_, d, a, b)) => plain_source(s, local, a) && plain_source(s, local, b) && plain_destination(s, d)
                && source_width(s, local, a) == source_width(s, local, b) && 1 <= source_width(s, local, a) <= 64,
            None => false,
        },
    }
}

/// The value of a shift of kind `t` of the `w` bit value `x` by `n`, where
/// `c` is the carry flag: shifts by `n` bits; `Rrx` and `Ror` combine
/// shifts of `x` and of the carry as the executor computes them.
pub open spec fn shift_value(t: Shift, x: nat, n: nat, c: nat, w: nat) -> nat {
    match t {
        Shift::Lsl => bin_sem(BinOp::Shl, w, w, x, n),
        Shift::Lsr => bin_sem(BinOp::LShr, w, w, x, n),
        Shift::Asr => bin_sem(BinOp::AShr, w, w, x, n),
        Shift::Rrx => {
            let low = ((x as u64) & ((((n - 1) % (p(w) as int)) as nat) as u64)) as nat / p(1);
            let high = (c * p((n + 1) % p(w))) % p(w);
            ((low as u64) | (high as u64)) as nat
        },
        Shift::Ror => {
            let low = x / p(n);
            let high = (((x / p(w)) - n) % (p(w) as int)) as nat;
            ((low as u64) | (high as u64)) as nat
        },
    }
}

/// The value of the rotation right of the `w` bit value `x` by `n` steps
/// modulo `w`: the bits shifted out at the bottom come back in at the top.
pub open spec fn sror_value(x: nat, n: nat, w: nat) -> nat {
    let m = n % w;
    (((x / p(m)) as u64) | (((x * p((w - m) as nat)) % p(w)) as u64)) as nat
}

/// The name of the carry flag (`carry_flag`) or of the overflow flag.
pub open spec fn flag_name(carry_flag: bool) -> Seq<char> {
    if carry_flag {
        "C"@
    } else {
        "V"@
    }
}

/// The carry (`carry_flag`) or overflow flag of `x + y` on `w` bits, or of
/// `x - y` when `sub`; with `carry` the carry flag `c` is added in as the
/// executor does it.
pub open spec fn cv_value(carry_flag: bool, sub: bool, carry: bool, x: nat, y: nat, c: nat, w: nat) -> nat {
    let neg_y = (complement(y, w) + 1) % p(w);
    if carry_flag {
        if sub && carry {
            let c1 = bit(x + neg_y + c % 2 >= p(w));
            let c2 = bit(complement(y, w) + 1 >= p(w));
            ((c1 as u64) | (c2 as u64)) as nat
        } else if sub {
            bit(x + complement(y, w) + 1 >= p(w))
        } else if carry {
            bit(x + y + c % 2 >= p(w))
        } else {
            bit(x + y >= p(w))
        }
    } else {
        if sub && carry {
            bit(signed_overflow_with_carry(x, neg_y, c % 2, w))
        } else if sub {
            bit(signed_overflow_with_carry(x, complement(y, w), 1, w))
        } else if carry {
            bit(signed_overflow_with_carry(x, y, c % 2, w))
        } else {
            bit(signed_overflow(x, y, w))
        }
    }
}

/// The carry of a shift of the `w` bit value `x` by `n`: for a left shift
/// (`kind` 0) the bit shifted out at the top; for a logical (1) or an
/// arithmetic (2) right shift the last bit shifted out at the bottom; for a
/// rotation (3) the top bit of `x`.
pub open spec fn shift_carry(kind: u8, x: nat, n: nat, w: nat) -> nat {
    let doubled = (x * p(1)) % p(w + 1);
    if kind == 0 {
        ((x * p(n)) % p(w + 1)) / p(w) % 2
    } else if kind == 1 {
        doubled / p(n) % 2
    } else if kind == 2 {
        from_signed(to_signed(doubled, w + 1) / (p(n) as int), w + 1) % 2
    } else {
        x / p((w - 1) as nat) % 2
    }
}

/// A flag setter wrote only the flag `f`: the other flags, the registers,
/// the memory, the solver, the program counter and the locals are kept.
pub open spec fn flag_frame(before: GAState, lb: NamedExprs, after: GAState, la: NamedExprs, f: Seq<char>) -> bool {
    &&& after.flag_map().contains(f)
    &&& forall|k: Seq<char>| k != f ==> (#[trigger] after.flag_map().contains(k)) == before.flag_map().contains(k)
    &&& forall|k: Seq<char>| k != f && before.flag_map().contains(k) ==> #[trigger] after.flag_map().lookup(k)
        == before.flag_map().lookup(k)
    &&& after.registers == before.registers
    &&& after.memory == before.memory
    &&& after.constraints == before.constraints
    &&& after.pc() == before.pc()
    &&& la == lb
}

/// The effect of a plain operation: the value written to its destination,
/// or to the flag it sets, under every assignment.
pub open spec fn plain_effect(before: GAState, lb: NamedExprs, after: GAState, la: NamedExprs, op: Operation) -> bool {
    let w = before.project.word_bits();
    match op {
        Operation::Nop => after.registers == before.registers && after.flag_map() == before.flag_map() && la == lb,
        Operation::Move { destination, source } => (forall|env: Env| #[trigger] destination_value(after, la, destination, env)
            == source_value(before, lb, source, env)) && write_frame(before, lb, after, la, destination) && (
        destination is Local && GAExecutor::plain_const(before, lb, source) is Some ==> GAExecutor::plain_const(
            after,
            la,
            destination,
        ) is Some),
        Operation::Not { destination, operand } => (forall|env: Env| #[trigger] destination_value(after, la, destination, env)
            == (p(source_width(before, lb, operand)) - 1 - source_value(before, lb, operand, env)) as nat)
            && write_frame(before, lb, after, la, destination),
        Operation::Adc { destination, operand1, operand2 } => forall|env: Env| #[trigger] destination_value(
            after,
            la,
            destination,
            env,
        ) == (source_value(before, lb, operand1, env) + source_value(before, lb, operand2, env)
            + before.flag_map().lookup("C"@).eval(env) % 2) % p(w) && write_frame(before, lb, after, la, destination),
        Operation::SetNFlag(operand) => (forall|env: Env| #[trigger] after.flag_map().lookup("N"@).eval(env)
            == bit_of(source_value(before, lb, operand, env), (w - 1) as nat)) && flag_frame(before, lb, after, la, "N"@),
        Operation::SetZFlag(operand) => (forall|env: Env| #[trigger] after.flag_map().lookup("Z"@).eval(env)
            == bit(source_value(before, lb, operand, env) == 0)) && flag_frame(before, lb, after, la, "Z"@),
        Operation::SetCFlag { operand1, operand2, sub, carry } => (forall|env: Env| #[trigger] after.flag_map().lookup(
            "C"@,
        ).eval(env) == cv_value(
            true,
            sub,
            carry,
            source_value(before, lb, operand1, env),
            source_value(before, lb, operand2, env),
            before.flag_map().lookup("C"@).eval(env),
            w,
        )) && flag_frame(before, lb, after, la, "C"@),
        Operation::SetVFlag { operand1, operand2, sub, carry } => (forall|env: Env| #[trigger] after.flag_map().lookup(
            "V"@,
        ).eval(env) == cv_value(
            false,
            sub,
            carry,
            source_value(before, lb, operand1, env),
            source_value(before, lb, operand2, env),
            before.flag_map().lookup("C"@).eval(env),
            w,
        )) && flag_frame(before, lb, after, la, "V"@),
        Operation::SetCFlagShiftLeft { operand, shift } => (forall|env: Env| #[trigger] after.flag_map().lookup(
            "C"@,
        ).eval(env) == shift_carry(0, source_value(before, lb, operand, env), source_value(before, lb, shift, env), w))
            && flag_frame(before, lb, after, la, "C"@),
        Operation::SetCFlagSrl { operand, shift } => (forall|env: Env| #[trigger] after.flag_map().lookup("C"@).eval(
            env,
        ) == shift_carry(1, source_value(before, lb, operand, env), source_value(before, lb, shift, env), w))
            && flag_frame(before, lb, after, la, "C"@),
        Operation::SetCFlagSra { operand, shift } => (forall|env: Env| #[trigger] after.flag_map().lookup("C"@).eval(
            env,
        ) == shift_carry(2, source_value(before, lb, operand, env), source_value(before, lb, shift, env), w))
            && flag_frame(before, lb, after, la, "C"@),
        Operation::SetCFlagRor(operand) => (forall|env: Env| #[trigger] after.flag_map().lookup("C"@).eval(env)
            == shift_carry(3, source_value(before, lb, operand, env), source_value(before, lb, operand, env), w))
            && flag_frame(before, lb, after, la, "C"@),
        Operation::Shift { destination, operand, shift_n, shift_t } => (forall|env: Env| #[trigger] destination_value(
            after,
            la,
            destination,
            env,
        ) == shift_value(
            shift_t,
            source_value(before, lb, operand, env),
            source_value(before, lb, shift_n, env),
            before.flag_map().lookup("C"@).eval(env),
            source_width(before, lb, operand),
        )) && write_frame(before, lb, after, la, destination),
        Operation::Sror { destination, operand, shift } => (forall|env: Env| #[trigger] destination_value(
            after,
            la,
            destination,
            env,
        ) == sror_value(source_value(before, lb, operand, env), source_value(before, lb, shift, env), w)) && write_frame(
            before,
            lb,
            after,
            la,
            destination,
        ),
        Operation::ConditionalExecution { conditions } => after.conditions() == before.conditions() + conditions@
            && after.registers == before.registers && after.flag_map() == before.flag_map() && after.memory
            == before.memory && after.constraints == before.constraints && after.pc() == before.pc() && la == lb,
        Operation::CountOnes { destination, operand } => forall|env: Env| #[trigger] destination_value(after, la, destination, env)
            == popcount(source_value(before, lb, operand, env), w) && write_frame(before, lb, after, la, destination),
        Operation::CountZeroes { destination, operand } => forall|env: Env| #[trigger] destination_value(
            after,
            la,
            destination,
            env,
        ) == popcount(complement(source_value(before, lb, operand, env), w), w) && write_frame(before, lb, after, la, destination),
        Operation::CountLeadingOnes { destination, operand } => forall|env: Env| #[trigger] destination_value(
            after,
            la,
            destination,
            env,
        ) == leading_ones(source_value(before, lb, operand, env), w, w) && write_frame(before, lb, after, la, destination),
        Operation::CountLeadingZeroes { destination, operand } => forall|env: Env| #[trigger] destination_value(
            after,
            la,
            destination,
            env,
        ) == leading_ones(complement(source_value(before, lb, operand, env), w), w, w) && write_frame(before, lb, after, la, destination),
        Operation::ZeroExtend { destination, operand, bits } => forall|env: Env| #[trigger] destination_value(
            after,
            la,
            destination,
            env,
        ) == source_value(before, lb, operand, env) % p(bits as nat) && write_frame(before, lb, after, la, destination),
        Operation::SignExtend { destination, operand, bits } => forall|env: Env| #[trigger] destination_value(
            after,
            la,
            destination,
            env,
        ) == sign_extend(source_value(before, lb, operand, env) % p(bits as nat), bits as nat, w) && write_frame(before, lb, after, la, destination),
        Operation::Resize { destination, operand, bits } => forall|env: Env| #[trigger] destination_value(
            after,
            la,
            destination,
            env,
        ) == source_value(before, lb, operand, env) % p(bits as nat) && write_frame(before, lb, after, la, destination),
        _ => match binary_parts(op) {
            Some((bop, d, a, b)) => (forall|env: Env| #[trigger] destination_value(after, la, d, env) == bin_sem(
                bop,
                source_width(before, lb, a),
                source_width(before, lb, b),
                source_value(before, lb, a, env),
                source_value(before, lb, b, env),
            )) && write_frame(before, lb, after, la, d) && (d is Local && GAExecutor::plain_const(before, lb, a) is Some
                && GAExecutor::plain_const(before, lb, b) is Some ==> GAExecutor::plain_const(after, la, d) is Some),
            None => true,
        },
    }
}

/// Whether a read of `bits` bits at `address` reads the data memory: no
/// read hook takes it, the address is outside the program's code and the
/// width is below a byte or whole bytes, at most a double word.
pub open spec fn reads_data(s: GAState, address: u64, bits: u32) -> bool {
    &&& s.project.memory_read_hook(address) is None
    &&& !(s.project.start() <= address <= s.project.end())
    &&& 1 <= bits <= 64
    &&& bits >= 8 ==> bits % 8 == 0
}

/// Whether a write of `bits` bits at `address` writes the data memory: no
/// write hook takes it, the address is outside the program's code and the
/// width is below a byte or whole bytes, at most a double word.
pub open spec fn writes_data(s: GAState, address: u64, bits: u32) -> bool {
    &&& s.project.memory_write_hook(address) is None
    &&& !(s.project.start() <= address <= s.project.end())
    &&& 1 <= bits <= 64
    &&& bits >= 8 ==> bits % 8 == 0
}

/// What a read of `bits` bits at `address` gives in state `s`: a read hook
/// gives its value; in the program's code, a code word or a code byte;
/// elsewhere, the `bits` bit load at the address from the data memory.
pub open spec fn read_result(s: GAState, address: u64, bits: u32, r: Result<DExpr, GAError>) -> bool {
    let pr = s.project;
    &&& r matches Ok(e) ==> e.wf()
    &&& pr.memory_read_hook(address) == Some(MemoryReadHook::AllOnesWord) ==> r == Ok::<DExpr, GAError>(
        const_of(0xffff_ffff, 32),
    )
    &&& pr.memory_read_hook(address) is None && pr.start() <= address <= pr.end() && bits == pr.word_bits()
        && pr.readable(address, pr.word_bits() / 8) ==> r == Ok::<DExpr, GAError>(
        const_of(
            crate::symex::bytes::bytes_value(
                pr.code_bytes(address, pr.word_bits() / 8),
                pr.endian() == crate::symex::types::Endianness::Big,
            ),
            pr.word_bits() as u32,
        ),
    )
    &&& pr.memory_read_hook(address) is None && pr.start() <= address <= pr.end() && bits == 8 && 8 != pr.word_bits()
        && 8 != pr.word_bits() / 2 && pr.readable(address, 1) ==> r == Ok::<DExpr, GAError>(
        const_of(pr.code()[address - pr.start()] as nat, 8),
    )
    &&& reads_data(s, address, bits) ==> (r matches Ok(e) && e.width() == bits && forall|env: Env| #[trigger] e.eval(env)
        == if bits < 8 {
        s.memory.byte_at(env, address as nat % p(pr.word_bits())) % p(bits as nat)
    } else {
        crate::memory::array_memory::load(
            s.memory.bytes(env),
            address as nat % p(pr.word_bits()),
            (bits / 8) as nat,
            s.memory.big_endian(),
            s.memory.ptr_bits(),
            (bits / 8) as nat,
        )
    })
}

/// What a write of the low `bits` bits of a value (`value(env)` under each
/// assignment `env`) at `address` does to the memory of `before`, giving
/// `after`: a write hook discards it; the
/// program's code cannot be written; elsewhere the bits are stored in the
/// data memory, in its byte order.
pub open spec fn write_result(
    before: GAState,
    after: GAState,
    value: spec_fn(Env) -> nat,
    address: u64,
    bits: u32,
    r: Result<(), GAError>,
) -> bool {
    let pr = before.project;
    &&& after.memory.big_endian() == before.memory.big_endian()
    &&& pr.memory_write_hook(address) == Some(MemoryWriteHook::Discard) ==> r is Ok && after.memory == before.memory
    &&& pr.memory_write_hook(address) is None && pr.start() <= address <= pr.end() ==> r == Err::<(), GAError>(
        GAError::WritingToStaticMemoryProhibited,
    )
    &&& writes_data(before, address, bits) ==> r is Ok && forall|env: Env, x: nat| #[trigger] after.memory.byte_at(env, x)
        == crate::memory::array_memory::store(
        before.memory.bytes(env),
        address as nat % p(pr.word_bits()),
        value(env) % p(bits as nat),
        crate::memory::array_memory::stored_bytes(bits as nat),
        before.memory.big_endian(),
        before.memory.ptr_bits(),
        crate::memory::array_memory::stored_bytes(bits as nat),
    )(x)
}

/// The effect of a move between a plain operand and the memory at a
/// constant address. A store writes the source's value as `write_result`
/// states and changes no register, flag, local, constraint or the program
/// counter; a load from the data memory succeeds, and a load that succeeds
/// leaves in the destination a value that the read gives there.
pub open spec fn memory_move_effect(
    before: GAState,
    lb: NamedExprs,
    after: GAState,
    la: NamedExprs,
    op: Operation,
    r: Result<(), GAError>,
) -> bool {
    match op {
        Operation::Move { destination, source } => {
            &&& match destination {
                Operand::Address(a, w) => plain_source(before, lb, source) ==> {
                    &&& la == lb
                    &&& after.registers == before.registers
                    &&& after.flag_map() == before.flag_map()
                    &&& after.constraints == before.constraints
                    &&& after.pc() == before.pc()
                    &&& write_result(
                        before,
                        after,
                        |env: Env| source_value(before, lb, source, env),
                        a.value() as u64,
                        w,
                        r,
                    )
                },
                _ => true,
            }
            &&& match source {
                Operand::Address(a, w) => plain_destination(before, destination) ==> {
                    &&& reads_data(before, a.value() as u64, w) ==> r is Ok
                    &&& r is Ok ==> (exists|e: DExpr| #[trigger] read_result(before, a.value() as u64, w, Ok::<DExpr, GAError>(e))
                        && forall|env: Env| #[trigger] destination_value(after, la, destination, env) == e.eval(env))
                    &&& r is Ok ==> write_frame(before, lb, after, la, destination)
                },
                _ => true,
            }
        },
        _ => true,
    }
}

/// What is moved into a register is read back: after a move of an
/// immediate into a register that has no hooks and is not the program
/// counter, the register holds the immediate's value and every other
/// register keeps its value.
pub proof fn law_move_then_read(
    before: GAState,
    lb: NamedExprs,
    after: GAState,
    la: NamedExprs,
    r: String,
    d: DataWord,
    other: Seq<char>,
    env: Env,
)
    requires
        plain_effect(
            before,
            lb,
            after,
            la,
            Operation::Move { destination: Operand::Register(r), source: Operand::Immediate(d) },
        ),
    ensures
        after.registers.lookup(r@).eval(env) == d.value(),
        other != r@ && before.registers.contains(other) ==> after.registers.lookup(other)
            == before.registers.lookup(other),
{
    assert(destination_value(after, la, Operand::Register(r), env) == source_value(
        before,
        lb,
        Operand::Immediate(d),
        env,
    ));
    if other != r@ && before.registers.contains(other) {
        assert(after.registers.contains(other));
    }
}

/// What is stored to data memory is loaded back: when `after` holds the
/// memory of `before` with the low `bits` bits of `data` stored at an
/// address outside the program's code (what `set_memory` ensures there),
/// the `bits` bit load at that address (what `get_memory` gives there) is
/// those bits of `data`.
pub proof fn law_store_then_load<'p>(
    before: GAExecutor<'p>,
    after: GAExecutor<'p>,
    data: DExpr,
    address: u64,
    bits: u32,
    env: Env,
)
    requires
        before.wf(),
        after.wf(),
        after.project == before.project,
        after.state.memory.big_endian() == before.state.memory.big_endian(),
        8 <= bits <= 64,
        bits % 8 == 0,
        forall|x: nat| #[trigger] after.state.memory.byte_at(env, x) == crate::memory::array_memory::store(
            before.state.memory.bytes(env),
            address as nat % p(before.project.word_bits()),
            data.eval(env) % p(bits as nat),
            crate::memory::array_memory::stored_bytes(bits as nat),
            before.state.memory.big_endian(),
            before.state.memory.ptr_bits(),
            crate::memory::array_memory::stored_bytes(bits as nat),
        )(x),
    ensures
        crate::memory::array_memory::load(
            after.state.memory.bytes(env),
            address as nat % p(after.project.word_bits()),
            (bits / 8) as nat,
            after.state.memory.big_endian(),
            after.state.memory.ptr_bits(),
            (bits / 8) as nat,
        ) == data.eval(env) % p(bits as nat),
{
    let n: nat = (bits / 8) as nat;
    assert(crate::memory::array_memory::stored_bytes(bits as nat) == n);
    assert(8 * n == bits as nat);
    lemma_p_facts(bits as nat);
    assert(data.eval(env) % p(bits as nat) < p(8 * n));
    assert(before.state.memory.ptr_bits() == before.project.word_bits());
    assert(3 <= before.state.memory.ptr_bits()) by {
        assert(before.project.word_bits() >= 8);
    }
    crate::memory::array_memory::law_array_memory_read_after_write(
        before.state.memory,
        after.state.memory,
        env,
        address as nat % p(before.project.word_bits()),
        data.eval(env) % p(bits as nat),
        n,
    );
}

/// What a move stores to data memory, a move from the same address loads
/// back: when a move of a plain source into the memory at a constant
/// address, written and read there as data, took `s0` to `s1`, and a move
/// from that address into a plain destination took `s1` to `s2`, both
/// succeeding with the effects that `execute_operation` ensures, the
/// destination holds the low `w` bits of the source's value.
pub proof fn law_store_then_load_moves<'p>(
    s0: GAState<'p>,
    l0: NamedExprs,
    s1: GAState<'p>,
    l1: NamedExprs,
    s2: GAState<'p>,
    l2: NamedExprs,
    source: Operand,
    destination: Operand,
    a: DataWord,
    w: u32,
    env: Env,
)
    requires
        s0.wf(),
        s1.wf(),
        s1.project == s0.project,
        plain_source(s0, l0, source),
        plain_destination(s1, destination),
        writes_data(s0, a.value() as u64, w),
        reads_data(s1, a.value() as u64, w),
        w >= 8,
        memory_move_effect(s0, l0, s1, l1, Operation::Move { destination: Operand::Address(a, w), source }, Ok(())),
        memory_move_effect(s1, l1, s2, l2, Operation::Move { destination, source: Operand::Address(a, w) }, Ok(())),
    ensures
        destination_value(s2, l2, destination, env) == source_value(s0, l0, source, env) % p(w as nat),
{
    let address: u64 = a.value() as u64;
    let e: DExpr = choose|e: DExpr| #[trigger] read_result(s1, address, w, Ok::<DExpr, GAError>(e))
        && forall|env: Env| #[trigger] destination_value(s2, l2, destination, env) == e.eval(env);
    assert(destination_value(s2, l2, destination, env) == e.eval(env));
    let n: nat = (w / 8) as nat;
    let v: nat = source_value(s0, l0, source, env) % p(w as nat);
    assert(crate::memory::array_memory::stored_bytes(w as nat) == n);
    assert(8 * n == w as nat);
    lemma_p_facts(w as nat);
    assert(v < p(8 * n));
    assert(3 <= s0.memory.ptr_bits()) by {
        assert(s0.memory.ptr_bits() == s0.project.word_bits());
    }
    assert forall|x: nat| #[trigger] s1.memory.byte_at(env, x) == crate::memory::array_memory::store(
        s0.memory.bytes(env),
        address as nat % p(s0.project.word_bits()),
        v,
        n,
        s0.memory.big_endian(),
        s0.memory.ptr_bits(),
        n,
    )(x) by {
        assert((|env: Env| source_value(s0, l0, source, env))(env) == source_value(s0, l0, source, env));
    }
    crate::memory::array_memory::law_array_memory_read_after_write(
        s0.memory,
        s1.memory,
        env,
        address as nat % p(s0.project.word_bits()),
        v,
        n,
    );
}

/// The executor of one path.
pub struct GAExecutor<'p> {
    /// The state of the path.
    pub state: GAState<'p>,
    /// The program under analysis.
    pub project: &'p Project,
    /// The paths forked off so far, oldest first.
    pub forks: Vec<Path<'p>>,
    /// The index of the operation being executed in the current instruction.
    pub current_operation_index: usize,
}

impl<'p> GAExecutor<'p> {
    /// Well formedness: the state is well formed, the project is the
    /// state's, and the forked paths have well formed solvers.
    pub open spec fn wf(self) -> bool {
        &&& self.state.wf()
        &&& self.state.project == self.project
        &&& 1 <= self.project.word_bits() <= 64
        &&& forall|i: int| 0 <= i < self.forks@.len() ==> Self::path_ok(#[trigger] self.forks@[i], self.project)
    }

    /// A saved path is ready to resume: its state is well formed and of the
    /// project, and its constraints are well formed one bit expressions.
    pub open spec fn path_ok(path: Path<'p>, project: &'p Project) -> bool {
        &&& path.state.wf()
        &&& path.state.project == project
        &&& path.state.constraints.wf()
        &&& forall|j: int| 0 <= j < path.constraints@.len() ==> (#[trigger] path.constraints@[j]).wf()
            && path.constraints@[j].width() == 1
    }

    /// An executor that resumes `state`.
    pub fn from_state(state: GAState<'p>, project: &'p Project) -> (r: GAExecutor<'p>)
        ensures
            r.state == state,
            r.project == project,
            r.forks@.len() == 0,
            r.current_operation_index == 0,
    {
        GAExecutor { state, project, forks: Vec::new(), current_operation_index: 0 }
    }

    /// The constant of a data word, of the word's width.
    pub fn get_dexpr_from_dataword(&self, data: DataWord) -> (r: DExpr)
        ensures
            r.wf(),
            r == const_of(data.value(), data.bits() as u32),
            r.const_value() == Some(data.value() as u64),
            r.width() == data.bits(),
            forall|env: Env| #[trigger] r.eval(env) == data.value(),
    {
        proof {
            lemma2_to64();
        }
        let w: u32 = data.width();
        let v: u64 = data.to_u64();
        proof {
            lemma_p_facts(w as nat);
            vstd::arithmetic::div_mod::lemma_small_mod(v as nat, p(w as nat));
        }
        self.state.ctx.from_u64(v, w)
    }

    /// Saves a copy of the current path with `constraint` added, to be
    /// explored later.
    pub fn fork(&mut self, constraint: DExpr)
        requires
            old(self).wf(),
            constraint.wf(),
            constraint.width() == 1,
        ensures
            final(self).wf(),
            final(self).state == old(self).state,
            final(self).project == old(self).project,
            final(self).current_operation_index == old(self).current_operation_index,
            final(self).forks@.len() == old(self).forks@.len() + 1,
            final(self).forks@.drop_last() == old(self).forks@,
            final(self).forks@.last().constraints@ == seq![constraint],
            final(self).forks@.last().state.pc() == old(self).state.pc(),
            forall|k: Seq<char>| #[trigger] final(self).forks@.last().state.registers.contains(k)
                == old(self).state.registers.contains(k),
            forall|k: Seq<char>| #[trigger] final(self).forks@.last().state.registers.lookup(k)
                == old(self).state.registers.lookup(k),
            final(self).forks@.last().state.constraints.assertions() == old(self).state.constraints.assertions(),
    {
        let forked: GAState<'p> = self.state.clone();
        let path: Path<'p> = Path::new(forked, Some(constraint));
        self.forks.push(path);
        proof {
            assert(self.forks@.drop_last() =~= old(self).forks@);
        }
    }

    /// The value at `address` of `bits` bits: a read hook gives its value;
    /// an address in the program's code reads the code (a word, a half word
    /// or a byte); any other address reads the data memory.
    pub fn get_memory(&mut self, address: u64, bits: u32) -> (r: Result<DExpr, GAError>)
        requires
            old(self).wf(),
        ensures
            final(self).wf(),
            *final(self) == *old(self),
            read_result(old(self).state, address, bits, r),
    {
        match self.project.get_memory_read_hook(address) {
            Some(MemoryReadHook::AllOnesWord) => {
                return Ok(self.state.ctx.from_u64(0xffff_ffff, 32));
            },
            None => {},
        }
        let word: u32 = self.project.get_word_size();
        if self.project.address_in_range(address) {
            if bits == word {
                match self.project.get_word(address) {
                    Ok(w) => Ok(self.get_dexpr_from_dataword(w)),
                    Err(e) => Err(GAError::ProjectError(e)),
                }
            } else if bits == word / 2 {
                match self.project.get_half_word(address) {
                    Ok(h) => Ok(self.get_dexpr_from_dataword(DataWord::from(h))),
                    Err(e) => Err(GAError::ProjectError(e)),
                }
            } else if bits == 8 {
                match self.project.get_byte(address) {
                    Ok(b) => Ok(self.state.ctx.from_u64(b as u64, 8)),
                    Err(e) => Err(GAError::ProjectError(e)),
                }
            } else {
                Err(GAError::ProjectError(ProjectError::UnabvalableOperation))
            }
        } else {
            if bits == 0 || bits > 64 || (bits >= 8 && bits % 8 != 0) {
                return Err(GAError::MemoryError(MemoryError::BitsNotMultipleOfBytes(bits as u64)));
            }
            let symbolic_address: DExpr = self.state.ctx.from_u64(address, word);
            match self.state.memory.read(&symbolic_address, bits) {
                Ok(e) => Ok(e),
                Err(e) => Err(GAError::MemoryError(e)),
            }
        }
    }

    /// Writes the low `bits` bits of `data` at `address`: a write hook
    /// takes the write; the program's code cannot be written; any other
    /// address writes the data memory.
    pub fn set_memory(&mut self, data: DExpr, address: u64, bits: u32) -> (r: Result<(), GAError>)
        requires
            old(self).wf(),
            data.wf(),
        ensures
            final(self).wf(),
            final(self).project == old(self).project,
            final(self).forks == old(self).forks,
            final(self).current_operation_index == old(self).current_operation_index,
            final(self).state.registers == old(self).state.registers,
            final(self).state.flag_map() == old(self).state.flag_map(),
            final(self).state.constraints == old(self).state.constraints,
            final(self).state.pc() == old(self).state.pc(),
            final(self).state.count() == old(self).state.count(),
            final(self).state.conditions() == old(self).state.conditions(),
            final(self).state.jumped() == old(self).state.jumped(),
            final(self).state.project == old(self).state.project,
            final(self).state.last_pc == old(self).state.last_pc,
            write_result(old(self).state, final(self).state, |env: Env| data.eval(env), address, bits, r),
    {
        match self.project.get_memory_write_hook(address) {
            Some(MemoryWriteHook::Discard) => {
                return Ok(());
            },
            None => {},
        }
        if self.project.address_in_range(address) {
            return Err(GAError::WritingToStaticMemoryProhibited);
        }
        if bits == 0 || bits > 64 || (bits >= 8 && bits % 8 != 0) {
            return Err(GAError::MemoryError(MemoryError::BitsNotMultipleOfBytes(bits as u64)));
        }
        let word: u32 = self.project.get_word_size();
        let symbolic_address: DExpr = self.state.ctx.from_u64(address, word);
        let value: DExpr = data.resize_unsigned(bits);
        match self.state.memory.write(&symbolic_address, value) {
            Ok(()) => Ok(()),
            Err(e) => Err(GAError::MemoryError(e)),
        }
    }

    /// A concrete address for `address`: a constant is its own value; the
    /// solver enumerates no values of any other expression, which is
    /// refused as having too many solutions.
    pub fn resolve_address(&mut self, address: DExpr, local: &NamedExprs) -> (r: Result<u64, GAError>)
        requires
            old(self).wf(),
            address.wf(),
        ensures
            *final(self) == *old(self),
            address.is_const() ==> r == Ok::<u64, GAError>(address.const_value().unwrap()),
            !address.is_const() ==> r == Err::<u64, GAError>(GAError::SolverError(SolverError::TooManySolutions)),
    {
        match address.get_constant() {
            Some(a) => Ok(a),
            None => match self.state.constraints.get_values(&address, 255) {
                Ok(Solutions::Exactly(values)) => {
                    if values.len() == 1 {
                        match values[0].get_constant() {
                            Some(a) => Ok(a),
                            None => Err(GAError::SolverError(SolverError::TooManySolutions)),
                        }
                    } else if values.len() == 0 {
                        Err(GAError::SolverError(SolverError::Unsat))
                    } else {
                        Err(GAError::SolverError(SolverError::TooManySolutions))
                    }
                },
                Ok(Solutions::AtLeast(_)) => Err(GAError::SolverError(SolverError::TooManySolutions)),
                Err(e) => Err(GAError::SolverError(e)),
            },
        }
    }

    /// The value of an operand: a register (through its read hook), an
    /// immediate, a local, a flag widened to a word, or memory at a constant
    /// address or at the address in a local.
    pub fn get_operand_value(&mut self, operand: &Operand, local: &NamedExprs) -> (r: Result<DExpr, GAError>)
        requires
            old(self).wf(),
            local.wf(),
            values_wf(*local),
        ensures
            final(self).wf(),
            final(self).project == old(self).project,
            final(self).forks == old(self).forks,
            final(self).current_operation_index == old(self).current_operation_index,
            final(self).state.flag_map() == old(self).state.flag_map(),
            final(self).state.memory == old(self).state.memory,
            final(self).state.constraints == old(self).state.constraints,
            final(self).state.pc() == old(self).state.pc(),
            final(self).state.count() == old(self).state.count(),
            final(self).state.conditions() == old(self).state.conditions(),
            final(self).state.jumped() == old(self).state.jumped(),
            final(self).state.last_pc == old(self).state.last_pc,
            r matches Ok(e) ==> e.wf(),
            plain_source(old(self).state, *local, *operand) ==> {
                &&& *final(self) == *old(self)
                &&& r matches Ok(e) && e.width() == source_width(old(self).state, *local, *operand)
                    && forall|env: Env| #[trigger] e.eval(env) == source_value(old(self).state, *local, *operand, env)
                &&& Self::plain_const(old(self).state, *local, *operand) is Some ==> (r matches Ok(e)
                    && e.const_value() == Self::plain_const(old(self).state, *local, *operand))
            },
            *operand matches Operand::Address(a, w) ==> *final(self) == *old(self) && read_result(
                old(self).state,
                a.value() as u64,
                w,
                r,
            ),
            *operand matches Operand::AddressInLocal(n, w) ==> *final(self) == *old(self) && if !local.contains(n@) {
                r == Err::<DExpr, GAError>(GAError::ProjectError(ProjectError::UnabvalableOperation))
            } else if local.lookup(n@).is_const() {
                read_result(old(self).state, local.lookup(n@).const_value().unwrap(), w, r)
            } else {
                r == Err::<DExpr, GAError>(GAError::SolverError(SolverError::TooManySolutions))
            },
            *operand is AddressWithOffset ==> *final(self) == *old(self) && r == Err::<DExpr, GAError>(
                GAError::ProjectError(ProjectError::UnabvalableOperation),
            ),
    {
        match operand {
            Operand::Register(name) => self.state.get_register(name.clone()),
            Operand::Immediate(v) => {
                let e: DExpr = self.get_dexpr_from_dataword(*v);
                proof {
                    let env = Env { vars: |n: Seq<char>| 0nat, arrays: |n: Seq<char>, a: nat| 0nat };
                    assert(e.eval(env) == v.value());
                }
                Ok(e)
            },
            Operand::Address(address, width) => {
                let address: DExpr = self.get_dexpr_from_dataword(*address);
                let address: u64 = self.resolve_address(address, local)?;
                self.get_memory(address, *width)
            },
            Operand::AddressWithOffset { .. } => Err(GAError::ProjectError(ProjectError::UnabvalableOperation)),
            Operand::Local(k) => match local.get(k.as_str()) {
                Some(v) => Ok(v),
                None => Err(GAError::ProjectError(ProjectError::UnabvalableOperation)),
            },
            Operand::AddressInLocal(name, width) => {
                let address: DExpr = match local.get(name.as_str()) {
                    Some(v) => v,
                    None => return Err(GAError::ProjectError(ProjectError::UnabvalableOperation)),
                };
                let address: u64 = self.resolve_address(address, local)?;
                self.get_memory(address, *width)
            },
            Operand::Flag(f) => match self.state.get_flag(f.as_str()) {
                Some(v) => {
                    let word: u32 = self.project.get_word_size();
                    Ok(v.resize_unsigned(word))
                },
                None => Err(GAError::ProjectError(ProjectError::UnabvalableOperation)),
            },
        }
    }

    /// Writes `value` to what the operand denotes: a register (through its
    /// write hook), a local, a flag (its lowest bit) or memory; an immediate
    /// cannot be written.
    pub fn set_operand_value(&mut self, operand: &Operand, value: DExpr, local: &mut NamedExprs) -> (r: Result<(), GAError>)
        requires
            old(self).wf(),
            old(local).wf(),
            values_wf(*old(local)),
            value.wf(),
        ensures
            final(self).wf(),
            final(local).wf(),
            values_wf(*final(local)),
            final(self).project == old(self).project,
            final(self).forks == old(self).forks,
            final(self).current_operation_index == old(self).current_operation_index,
            final(self).state.count() == old(self).state.count(),
            final(self).state.conditions() == old(self).state.conditions(),
            final(self).state.jumped() == old(self).state.jumped(),
            final(self).state.last_pc == old(self).state.last_pc,
            plain_destination(old(self).state, *operand) ==> {
                &&& r is Ok
                &&& destination_bound(final(self).state, *final(local), *operand)
                &&& forall|env: Env| #[trigger] destination_value(final(self).state, *final(local), *operand, env)
                    == value.eval(env)
                &&& write_frame(old(self).state, *old(local), final(self).state, *final(local), *operand)
            },
            *operand matches Operand::Local(k) ==> r is Ok && final(local).contains(k@) && final(local).lookup(k@) == value,
            *operand is Immediate || *operand is AddressWithOffset ==> *final(self) == *old(self) && *final(local)
                == *old(local) && r == Err::<(), GAError>(GAError::ProjectError(ProjectError::UnabvalableOperation)),
            *operand is Address || *operand is AddressInLocal ==> {
                &&& *final(local) == *old(local)
                &&& final(self).state.registers == old(self).state.registers
                &&& final(self).state.flag_map() == old(self).state.flag_map()
                &&& final(self).state.constraints == old(self).state.constraints
                &&& final(self).state.pc() == old(self).state.pc()
            },
            *operand matches Operand::Address(a, w) ==> write_result(
                old(self).state,
                final(self).state,
                |env: Env| value.eval(env),
                a.value() as u64,
                w,
                r,
            ),
            *operand matches Operand::AddressInLocal(n, w) ==> if !old(local).contains(n@) {
                *final(self) == *old(self) && r == Err::<(), GAError>(
                    GAError::ProjectError(ProjectError::UnabvalableOperation),
                )
            } else if old(local).lookup(n@).is_const() {
                write_result(
                    old(self).state,
                    final(self).state,
                    |env: Env| value.eval(env),
                    old(local).lookup(n@).const_value().unwrap(),
                    w,
                    r,
                )
            } else {
                *final(self) == *old(self) && r == Err::<(), GAError>(GAError::SolverError(SolverError::TooManySolutions))
            },
    {
        match operand {
            Operand::Register(name) => self.state.set_register(name.clone(), value),
            Operand::Immediate(_) => Err(GAError::ProjectError(ProjectError::UnabvalableOperation)),
            Operand::AddressInLocal(name, width) => {
                let address: DExpr = match local.get(name.as_str()) {
                    Some(v) => v,
                    None => return Err(GAError::ProjectError(ProjectError::UnabvalableOperation)),
                };
                let address: u64 = self.resolve_address(address, local)?;
                self.set_memory(value, address, *width)
            },
            Operand::Address(address, width) => {
                let address: DExpr = self.get_dexpr_from_dataword(*address);
                let address: u64 = self.resolve_address(address, local)?;
                self.set_memory(value, address, *width)
            },
            Operand::AddressWithOffset { .. } => Err(GAError::ProjectError(ProjectError::UnabvalableOperation)),
            Operand::Local(k) => {
                let ghost before = *local;
                local.insert(k.clone(), value);
                proof {
                    assert forall|x: Seq<char>| #[trigger] local.contains(x) implies local.lookup(x).wf() by {
                        if x != k@ {
                            assert(before.contains(x));
                        }
                    }
                }
                Ok(())
            },
            Operand::Flag(f) => {
                let bit_value: DExpr = value.resize_unsigned(1);
                let ghost before = self.state.flag_map();
                self.state.set_flag(f.clone(), bit_value);
                proof {
                    reveal_strlit("N");
                    reveal_strlit("Z");
                    reveal_strlit("C");
                    reveal_strlit("V");
                    assert forall|x: Seq<char>| #[trigger] self.state.flag_map().contains(x) implies self.state.flag_map().lookup(x).wf() by {
                        if x != f@ {
                            assert(before.contains(x));
                        }
                    }
                }
                Ok(())
            },
        }
    }

    /// `destination = operand1 op operand2` for a binary operator.
    fn exec_binary(&mut self, op: BinOp, destination: &Operand, operand1: &Operand, operand2: &Operand, local: &mut NamedExprs) -> (r: Result<(), GAError>)
        requires
            old(self).wf(),
            old(local).wf(),
            values_wf(*old(local)),
            !(op is Eq || op is Ult || op is Ule || op is Slt || op is Sle || op is UAddO || op is SAddO || op is Concat),
        ensures
            final(self).wf(),
            final(local).wf(),
            values_wf(*final(local)),
            final(self).project == old(self).project,
            final(self).forks == old(self).forks,
            final(self).current_operation_index == old(self).current_operation_index,
            final(self).state.count() == old(self).state.count(),
            final(self).state.conditions() == old(self).state.conditions(),
            final(self).state.jumped() == old(self).state.jumped(),
            final(self).state.last_pc == old(self).state.last_pc,
            plain_source(old(self).state, *old(local), *operand1) && plain_source(old(self).state, *old(local), *operand2)
                && plain_destination(old(self).state, *destination) && source_width(old(self).state, *old(local), *operand1)
                == source_width(old(self).state, *old(local), *operand2) ==> {
                &&& r is Ok
                &&& forall|env: Env| #[trigger] destination_value(final(self).state, *final(local), *destination, env)
                    == bin_sem(
                    op,
                    source_width(old(self).state, *old(local), *operand1),
                    source_width(old(self).state, *old(local), *operand2),
                    source_value(old(self).state, *old(local), *operand1, env),
                    source_value(old(self).state, *old(local), *operand2, env),
                )
                &&& write_frame(old(self).state, *old(local), final(self).state, *final(local), *destination)
            },
            plain_source(old(self).state, *old(local), *operand1) && plain_source(old(self).state, *old(local), *operand2)
                && *destination is Local && source_width(old(self).state, *old(local), *operand1) == source_width(
                old(self).state,
                *old(local),
                *operand2,
            ) && Self::plain_const(old(self).state, *old(local), *operand1) is Some && Self::plain_const(
                old(self).state,
                *old(local),
                *operand2,
            ) is Some ==> Self::plain_const(final(self).state, *final(local), *destination) is Some,
    {
        let x: DExpr = self.get_operand_value(operand1, local)?;
        let y: DExpr = self.get_operand_value(operand2, local)?;
        if x.len() != y.len() {
            return Err(GAError::ProjectError(ProjectError::UnabvalableOperation));
        }
        let result: DExpr = apply_binary(op, &x, &y);
        self.set_operand_value(destination, result, local)
    }

    /// `destination = f(operand)` for a unary operation: 0 moves, 1
    /// complements, 2 counts ones, 3 counts zeroes, 4 counts leading ones, 5
    /// counts leading zeroes.
    fn exec_unary(&mut self, kind: u8, destination: &Operand, operand: &Operand, local: &mut NamedExprs) -> (r: Result<(), GAError>)
        requires
            old(self).wf(),
            old(local).wf(),
            values_wf(*old(local)),
        ensures
            final(self).wf(),
            final(local).wf(),
            values_wf(*final(local)),
            final(self).project == old(self).project,
            final(self).forks == old(self).forks,
            final(self).current_operation_index == old(self).current_operation_index,
            final(self).state.count() == old(self).state.count(),
            final(self).state.conditions() == old(self).state.conditions(),
            final(self).state.jumped() == old(self).state.jumped(),
            final(self).state.last_pc == old(self).state.last_pc,
            plain_source(old(self).state, *old(local), *operand) && plain_destination(old(self).state, *destination)
                && (kind >= 2 ==> source_width(old(self).state, *old(local), *operand) == old(self).project.word_bits()) ==> {
                &&& r is Ok
                &&& forall|env: Env| #[trigger] destination_value(final(self).state, *final(local), *destination, env)
                    == {
                    let x = source_value(old(self).state, *old(local), *operand, env);
                    let w = source_width(old(self).state, *old(local), *operand);
                    if kind == 0 {
                        x
                    } else if kind == 1 {
                        (p(w) - 1 - x) as nat
                    } else if kind == 2 {
                        popcount(x, w)
                    } else if kind == 3 {
                        popcount(complement(x, w), w)
                    } else if kind == 4 {
                        leading_ones(x, w, w)
                    } else {
                        leading_ones(complement(x, w), w, w)
                    }
                }
                &&& write_frame(old(self).state, *old(local), final(self).state, *final(local), *destination)
            },
            kind == 0 && plain_source(old(self).state, *old(local), *operand) && *destination is Local
                && Self::plain_const(old(self).state, *old(local), *operand) is Some ==> Self::plain_const(
                final(self).state,
                *final(local),
                *destination,
            ) is Some,
            kind == 0 ==> memory_move_effect(
                old(self).state,
                *old(local),
                final(self).state,
                *final(local),
                Operation::Move { destination: *destination, source: *operand },
                r,
            ),
    {
        let x: DExpr = self.get_operand_value(operand, local)?;
        let word: u32 = self.project.get_word_size();
        if kind >= 2 && x.len() != word {
            return Err(GAError::ProjectError(ProjectError::UnabvalableOperation));
        }
        let ctx = self.state.ctx;
        let result: DExpr = if kind == 0 {
            x
        } else if kind == 1 {
            x.not()
        } else if kind == 2 {
            count_ones(&x, &ctx, word)
        } else if kind == 3 {
            count_zeroes(&x, &ctx, word)
        } else if kind == 4 {
            count_leading_ones(&x, &ctx, word)
        } else {
            count_leading_zeroes(&x, &ctx, word)
        };
        self.set_operand_value(destination, result, local)
    }

    /// Extends or truncates the low `bits` bits of an operand: 0 zero
    /// extends and 1 sign extends them to a word; 2 resizes to `bits` bits.
    fn exec_extend(&mut self, kind: u8, destination: &Operand, operand: &Operand, bits: u32, local: &mut NamedExprs) -> (r: Result<(), GAError>)
        requires
            old(self).wf(),
            old(local).wf(),
            values_wf(*old(local)),
        ensures
            final(self).wf(),
            final(local).wf(),
            values_wf(*final(local)),
            final(self).project == old(self).project,
            final(self).forks == old(self).forks,
            final(self).current_operation_index == old(self).current_operation_index,
            final(self).state.count() == old(self).state.count(),
            final(self).state.conditions() == old(self).state.conditions(),
            final(self).state.jumped() == old(self).state.jumped(),
            final(self).state.last_pc == old(self).state.last_pc,
            plain_source(old(self).state, *old(local), *operand) && plain_destination(old(self).state, *destination)
                && 1 <= bits && (kind < 2 ==> bits <= old(self).project.word_bits()) && bits <= 64 ==> {
                &&& r is Ok
                &&& forall|env: Env| #[trigger] destination_value(final(self).state, *final(local), *destination, env)
                    == {
                    let x = source_value(old(self).state, *old(local), *operand, env);
                    if kind == 1 {
                        sign_extend(x % p(bits as nat), bits as nat, old(self).project.word_bits())
                    } else {
                        x % p(bits as nat)
                    }
                }
                &&& write_frame(old(self).state, *old(local), final(self).state, *final(local), *destination)
            },
    {
        let x: DExpr = self.get_operand_value(operand, local)?;
        let word: u32 = self.project.get_word_size();
        if bits == 0 || bits > 64 || (kind < 2 && bits > word) {
            return Err(GAError::ProjectError(ProjectError::UnabvalableOperation));
        }
        let valid: DExpr = x.resize_unsigned(bits);
        let result: DExpr = if kind == 0 {
            valid.zero_ext(word)
        } else if kind == 1 {
            valid.sign_ext(word)
        } else {
            valid
        };
        self.set_operand_value(destination, result, local)
    }

    /// `destination = operand1 + operand2 + C`.
    fn exec_adc(&mut self, destination: &Operand, operand1: &Operand, operand2: &Operand, local: &mut NamedExprs) -> (r: Result<(), GAError>)
        requires
            old(self).wf(),
            old(local).wf(),
            values_wf(*old(local)),
        ensures
            final(self).wf(),
            final(local).wf(),
            values_wf(*final(local)),
            final(self).project == old(self).project,
            final(self).forks == old(self).forks,
            final(self).current_operation_index == old(self).current_operation_index,
            final(self).state.count() == old(self).state.count(),
            final(self).state.conditions() == old(self).state.conditions(),
            final(self).state.jumped() == old(self).state.jumped(),
            final(self).state.last_pc == old(self).state.last_pc,
            plain_source(old(self).state, *old(local), *operand1) && plain_source(old(self).state, *old(local), *operand2)
                && plain_destination(old(self).state, *destination) && source_width(old(self).state, *old(local), *operand1)
                == old(self).project.word_bits() && source_width(old(self).state, *old(local), *operand2)
                == old(self).project.word_bits() ==> {
                &&& r is Ok
                &&& forall|env: Env| #[trigger] destination_value(final(self).state, *final(local), *destination, env)
                    == (source_value(old(self).state, *old(local), *operand1, env) + source_value(old(self).state, *old(local), *operand2, env)
                    + old(self).state.flag_map().lookup("C"@).eval(env) % 2) % p(old(self).project.word_bits())
                &&& write_frame(old(self).state, *old(local), final(self).state, *final(local), *destination)
            },
    {
        let x: DExpr = self.get_operand_value(operand1, local)?;
        let y: DExpr = self.get_operand_value(operand2, local)?;
        let word: u32 = self.project.get_word_size();
        if x.len() != word || y.len() != word {
            return Err(GAError::ProjectError(ProjectError::UnabvalableOperation));
        }
        proof {
            reveal_strlit("C");
        }
        let c: DExpr = self.state.get_flag("C").unwrap();
        let carry: DExpr = c.zero_ext(word);
        let result: DExpr = add_with_carry(&x, &y, &carry, word).result;
        self.set_operand_value(destination, result, local)
    }

    /// Sets a flag of the condition flags to a one bit value.
    fn write_flag(&mut self, name: &str, value: DExpr)
        requires
            old(self).wf(),
            value.wf(),
            value.width() == 1,
            name@ == "N"@ || name@ == "Z"@ || name@ == "C"@ || name@ == "V"@,
        ensures
            final(self).wf(),
            final(self).project == old(self).project,
            final(self).forks == old(self).forks,
            final(self).current_operation_index == old(self).current_operation_index,
            final(self).state.registers == old(self).state.registers,
            final(self).state.memory == old(self).state.memory,
            final(self).state.constraints == old(self).state.constraints,
            final(self).state.pc() == old(self).state.pc(),
            final(self).state.count() == old(self).state.count(),
            final(self).state.conditions() == old(self).state.conditions(),
            final(self).state.jumped() == old(self).state.jumped(),
            final(self).state.last_pc == old(self).state.last_pc,
            final(self).state.flag_map().lookup(name@) == value,
            final(self).state.flag_map().contains(name@),
            forall|k: Seq<char>| k != name@ ==> (#[trigger] final(self).state.flag_map().contains(k))
                == old(self).state.flag_map().contains(k),
            forall|k: Seq<char>| k != name@ && old(self).state.flag_map().contains(k) ==> #[trigger] final(self).state.flag_map().lookup(k)
                == old(self).state.flag_map().lookup(k),
    {
        let ghost before = self.state.flag_map();
        proof {
            reveal_strlit("N");
            reveal_strlit("Z");
            reveal_strlit("C");
            reveal_strlit("V");
        }
        self.state.set_flag(owned(name), value);
        proof {
            assert forall|x: Seq<char>| #[trigger] self.state.flag_map().contains(x) implies self.state.flag_map().lookup(x).wf() by {
                if x != name@ {
                    assert(before.contains(x));
                }
            }
        }
    }

    /// Sets the negative flag to the sign bit of a word.
    fn exec_set_n(&mut self, operand: &Operand, local: &mut NamedExprs) -> (r: Result<(), GAError>)
        requires
            old(self).wf(),
            old(local).wf(),
            values_wf(*old(local)),
        ensures
            final(self).wf(),
            *final(local) == *old(local),
            final(self).project == old(self).project,
            final(self).forks == old(self).forks,
            final(self).current_operation_index == old(self).current_operation_index,
            final(self).state.count() == old(self).state.count(),
            final(self).state.conditions() == old(self).state.conditions(),
            final(self).state.jumped() == old(self).state.jumped(),
            final(self).state.last_pc == old(self).state.last_pc,
            plain_source(old(self).state, *old(local), *operand) && source_width(old(self).state, *old(local), *operand)
                == old(self).project.word_bits() ==> {
                &&& r is Ok
                &&& forall|env: Env| #[trigger] final(self).state.flag_map().lookup("N"@).eval(env) == bit_of(
                    source_value(old(self).state, *old(local), *operand, env),
                    (old(self).project.word_bits() - 1) as nat,
                )
                &&& flag_frame(old(self).state, *old(local), final(self).state, *final(local), "N"@)
            },
    {
        let value: DExpr = self.get_operand_value(operand, local)?;
        let word: u32 = self.project.get_word_size();
        if value.len() != word {
            return Err(GAError::ProjectError(ProjectError::UnabvalableOperation));
        }
        proof {
            lemma_p_facts(word as nat);
            lemma_p_mono(word as nat, 64);
            lemma2_to64();
        }
        let shift: DExpr = self.state.ctx.from_u64((word - 1) as u64, word);
        proof {
            assert(((word - 1) as nat) < p(word as nat)) by {
                crate::symex::executor::lemma_lt_pow2((word - 1) as nat);
                lemma_p_mono((word - 1) as nat, word as nat);
            }
            vstd::arithmetic::div_mod::lemma_small_mod((word - 1) as nat, p(word as nat));
        }
        let result: DExpr = value.srl(&shift).resize_unsigned(1);
        proof {
            assert(p(1) == 2);
        }
        proof {
            reveal_strlit("N");
        }
        self.write_flag("N", result);
        Ok(())
    }

    /// Sets the zero flag: whether a word is zero.
    fn exec_set_z(&mut self, operand: &Operand, local: &mut NamedExprs) -> (r: Result<(), GAError>)
        requires
            old(self).wf(),
            old(local).wf(),
            values_wf(*old(local)),
        ensures
            final(self).wf(),
            *final(local) == *old(local),
            final(self).project == old(self).project,
            final(self).forks == old(self).forks,
            final(self).current_operation_index == old(self).current_operation_index,
            final(self).state.count() == old(self).state.count(),
            final(self).state.conditions() == old(self).state.conditions(),
            final(self).state.jumped() == old(self).state.jumped(),
            final(self).state.last_pc == old(self).state.last_pc,
            plain_source(old(self).state, *old(local), *operand) && source_width(old(self).state, *old(local), *operand)
                == old(self).project.word_bits() ==> {
                &&& r is Ok
                &&& forall|env: Env| #[trigger] final(self).state.flag_map().lookup("Z"@).eval(env) == bit(
                    source_value(old(self).state, *old(local), *operand, env) == 0,
                )
                &&& flag_frame(old(self).state, *old(local), final(self).state, *final(local), "Z"@)
            },
    {
        let value: DExpr = self.get_operand_value(operand, local)?;
        let word: u32 = self.project.get_word_size();
        if value.len() != word {
            return Err(GAError::ProjectError(ProjectError::UnabvalableOperation));
        }
        let zero: DExpr = self.state.ctx.zero(word);
        let result: DExpr = value._eq(&zero);
        proof {
            reveal_strlit("Z");
        }
        self.write_flag("Z", result);
        Ok(())
    }

    /// Sets the carry (`carry_flag`) or overflow flag of `operand1 + operand2`,
    /// or of `operand1 - operand2` when `sub`, with the carry flag added in
    /// when `carry`.
    fn exec_set_cv(&mut self, carry_flag: bool, operand1: &Operand, operand2: &Operand, sub: bool, carry: bool, local: &mut NamedExprs) -> (r: Result<(), GAError>)
        requires
            old(self).wf(),
            old(local).wf(),
            values_wf(*old(local)),
        ensures
            final(self).wf(),
            *final(local) == *old(local),
            final(self).project == old(self).project,
            final(self).forks == old(self).forks,
            final(self).current_operation_index == old(self).current_operation_index,
            final(self).state.count() == old(self).state.count(),
            final(self).state.conditions() == old(self).state.conditions(),
            final(self).state.jumped() == old(self).state.jumped(),
            final(self).state.last_pc == old(self).state.last_pc,
            plain_source(old(self).state, *old(local), *operand1) && plain_source(old(self).state, *old(local), *operand2)
                && source_width(old(self).state, *old(local), *operand1) == old(self).project.word_bits()
                && source_width(old(self).state, *old(local), *operand2) == old(self).project.word_bits() ==> {
                &&& r is Ok
                &&& flag_frame(old(self).state, *old(local), final(self).state, *final(local), flag_name(carry_flag))
                &&& forall|env: Env| #[trigger] final(self).state.flag_map().lookup(flag_name(carry_flag)).eval(env)
                    == cv_value(
                    carry_flag,
                    sub,
                    carry,
                    source_value(old(self).state, *old(local), *operand1, env),
                    source_value(old(self).state, *old(local), *operand2, env),
                    old(self).state.flag_map().lookup("C"@).eval(env),
                    old(self).project.word_bits(),
                )
            },
    {
        let x: DExpr = self.get_operand_value(operand1, local)?;
        let y: DExpr = self.get_operand_value(operand2, local)?;
        let word: u32 = self.project.get_word_size();
        if x.len() != word || y.len() != word {
            return Err(GAError::ProjectError(ProjectError::UnabvalableOperation));
        }
        proof {
            lemma_p_facts(word as nat);
            lemma2_to64();
            reveal_strlit("C");
            reveal_strlit("V");
        }
        let one: DExpr = self.state.ctx.from_u64(1, word);
        proof {
            vstd::arithmetic::div_mod::lemma_small_mod(1, p(word as nat));
        }
        let c_in: DExpr = self.state.get_flag("C").unwrap();
        let result: DExpr = if carry_flag {
            if sub && carry {
                let not_y: DExpr = y.not();
                let c2: DExpr = not_y.uaddo(&one);
                add_with_carry(&x, &not_y.add(&one), &c_in, word).carry_out.or(&c2)
            } else if sub {
                add_with_carry(&x, &y.not(), &one, word).carry_out
            } else if carry {
                add_with_carry(&x, &y, &c_in, word).carry_out
            } else {
                x.uaddo(&y)
            }
        } else {
            if sub && carry {
                let neg_y: DExpr = y.not().add(&one);
                add_with_carry(&x, &neg_y, &c_in, word).overflow
            } else if sub {
                add_with_carry(&x, &y.not(), &one, word).overflow
            } else if carry {
                add_with_carry(&x, &y, &c_in, word).overflow
            } else {
                x.saddo(&y)
            }
        };
        if carry_flag {
            self.write_flag("C", result);
        } else {
            self.write_flag("V", result);
        }
        Ok(())
    }

    /// A constant of `width` bits, which must hold `value`.
    fn constant(&self, value: u64, width: u32) -> (r: DExpr)
        requires
            1 <= width <= 64,
            (value as nat) < p(width as nat),
        ensures
            r.wf(),
            r.width() == width,
            r.is_const(),
            forall|env: Env| #[trigger] r.eval(env) == value,
    {
        proof {
            vstd::arithmetic::div_mod::lemma_small_mod(value as nat, p(width as nat));
        }
        self.state.ctx.from_u64(value, width)
    }

    /// A shift or rotation of the kind `shift_t`.
    fn exec_shift(&mut self, destination: &Operand, operand: &Operand, shift_n: &Operand, shift_t: Shift, local: &mut NamedExprs) -> (r: Result<(), GAError>)
        requires
            old(self).wf(),
            old(local).wf(),
            values_wf(*old(local)),
        ensures
            final(self).wf(),
            final(local).wf(),
            values_wf(*final(local)),
            final(self).project == old(self).project,
            final(self).current_operation_index == old(self).current_operation_index,
            final(self).forks == old(self).forks,
            plain_source(old(self).state, *old(local), *operand) && plain_source(old(self).state, *old(local), *shift_n)
                && plain_destination(old(self).state, *destination) && source_width(old(self).state, *old(local), *operand)
                == source_width(old(self).state, *old(local), *shift_n) && (shift_t is Ror ==> source_width(
                old(self).state,
                *old(local),
                *operand,
            ) == old(self).project.word_bits()) ==> {
                &&& r is Ok
                &&& forall|env: Env| #[trigger] destination_value(final(self).state, *final(local), *destination, env)
                    == shift_value(
                    shift_t,
                    source_value(old(self).state, *old(local), *operand, env),
                    source_value(old(self).state, *old(local), *shift_n, env),
                    old(self).state.flag_map().lookup("C"@).eval(env),
                    source_width(old(self).state, *old(local), *operand),
                )
                &&& write_frame(old(self).state, *old(local), final(self).state, *final(local), *destination)
            },
    {
        let value: DExpr = self.get_operand_value(operand, local)?;
        let amount: DExpr = self.get_operand_value(shift_n, local)?;
        let w: u32 = value.len();
        if amount.len() != w {
            return Err(GAError::ProjectError(ProjectError::UnabvalableOperation));
        }
        proof {
            lemma_p_facts(w as nat);
            lemma2_to64();
        }
        let result: DExpr = match shift_t {
            Shift::Lsl => value.sll(&amount),
            Shift::Lsr => value.srl(&amount),
            Shift::Asr => value.sra(&amount),
            Shift::Rrx => {
                let one: DExpr = self.constant(1, w);
                let low: DExpr = value.and(&amount.sub(&one)).srl(&one).simplify();
                proof {
                    reveal_strlit("C");
                }
                let c: DExpr = self.state.get_flag("C").unwrap();
                let c_wide: DExpr = c.zero_ext(w);
                low.or(&c_wide.sll(&amount.add(&one)))
            },
            Shift::Ror => {
                let word: u32 = self.project.get_word_size();
                if word != w {
                    return Err(GAError::ProjectError(ProjectError::UnabvalableOperation));
                }
                proof {
                    crate::symex::executor::lemma_lt_pow2(w as nat);
                }
                let word_size: DExpr = self.constant(w as u64, w);
                value.srl(&amount).or(&value.srl(&word_size).sub(&amount))
            },
        };
        self.set_operand_value(destination, result, local)
    }

    /// Rotates right by `shift` modulo the word size.
    fn exec_sror(&mut self, destination: &Operand, operand: &Operand, shift: &Operand, local: &mut NamedExprs) -> (r: Result<(), GAError>)
        requires
            old(self).wf(),
            old(local).wf(),
            values_wf(*old(local)),
        ensures
            final(self).wf(),
            final(local).wf(),
            values_wf(*final(local)),
            final(self).project == old(self).project,
            final(self).current_operation_index == old(self).current_operation_index,
            final(self).forks == old(self).forks,
            plain_source(old(self).state, *old(local), *operand) && plain_source(old(self).state, *old(local), *shift)
                && plain_destination(old(self).state, *destination) && source_width(old(self).state, *old(local), *operand)
                == old(self).project.word_bits() && source_width(old(self).state, *old(local), *shift)
                == old(self).project.word_bits() ==> {
                &&& r is Ok
                &&& forall|env: Env| #[trigger] destination_value(final(self).state, *final(local), *destination, env)
                    == sror_value(
                    source_value(old(self).state, *old(local), *operand, env),
                    source_value(old(self).state, *old(local), *shift, env),
                    old(self).project.word_bits(),
                )
                &&& write_frame(old(self).state, *old(local), final(self).state, *final(local), *destination)
            },
    {
        let word: u32 = self.project.get_word_size();
        let value: DExpr = self.get_operand_value(operand, local)?;
        let amount: DExpr = self.get_operand_value(shift, local)?;
        if value.len() != word || amount.len() != word {
            return Err(GAError::ProjectError(ProjectError::UnabvalableOperation));
        }
        proof {
            crate::symex::executor::lemma_lt_pow2(word as nat);
        }
        let word_size: DExpr = self.constant(word as u64, word);
        let amount: DExpr = amount.urem(&word_size);
        let back: DExpr = word_size.sub(&amount);
        proof {
            assert forall|env: Env| #[trigger] back.eval(env) == word - amount.eval(env) by {
                vstd::arithmetic::div_mod::lemma_small_mod(word as nat, p(word as nat));
                assert(word_size.eval(env) == word);
                assert(amount.eval(env) < word);
                vstd::arithmetic::div_mod::lemma_small_mod((word - amount.eval(env)) as nat, p(word as nat));
            }
        }
        let result: DExpr = value.srl(&amount).or(&value.sll(&back));
        self.set_operand_value(destination, result, local)
    }

    /// Sets the carry flag of a shift: 0 left, 1 logical right, 2
    /// arithmetic right, 3 rotation (the carry is the top bit of the result).
    fn exec_carry_shift(&mut self, kind: u8, operand: &Operand, shift: &Operand, local: &mut NamedExprs) -> (r: Result<(), GAError>)
        requires
            kind <= 3,
            old(self).wf(),
            old(local).wf(),
            values_wf(*old(local)),
        ensures
            final(self).wf(),
            *final(local) == *old(local),
            final(self).project == old(self).project,
            final(self).current_operation_index == old(self).current_operation_index,
            final(self).forks == old(self).forks,
            plain_source(old(self).state, *old(local), *operand) && source_width(old(self).state, *old(local), *operand)
                == old(self).project.word_bits() && (kind < 3 ==> plain_source(old(self).state, *old(local), *shift)
                && source_width(old(self).state, *old(local), *shift) == old(self).project.word_bits()
                && old(self).project.word_bits() < 64) ==> {
                &&& r is Ok
                &&& forall|env: Env| #[trigger] final(self).state.flag_map().lookup("C"@).eval(env) == shift_carry(
                    kind,
                    source_value(old(self).state, *old(local), *operand, env),
                    source_value(old(self).state, *old(local), *shift, env),
                    old(self).project.word_bits(),
                )
                &&& flag_frame(old(self).state, *old(local), final(self).state, *final(local), "C"@)
            },
    {
        let word: u32 = self.project.get_word_size();
        let value: DExpr = self.get_operand_value(operand, local)?;
        if value.len() != word {
            return Err(GAError::ProjectError(ProjectError::UnabvalableOperation));
        }
        proof {
            lemma2_to64();
            lemma_p_facts(word as nat);
            crate::symex::executor::lemma_lt_pow2(word as nat);
            crate::symex::executor::lemma_lt_pow2((word - 1) as nat);
            lemma_p_mono((word - 1) as nat, word as nat);
            reveal_strlit("C");
        }
        let carry: DExpr = if kind == 3 {
            let top: DExpr = self.constant((word - 1) as u64, word);
            value.srl(&top).resize_unsigned(1)
        } else {
            if word >= 64 {
                return Err(GAError::ProjectError(ProjectError::UnabvalableOperation));
            }
            let amount: DExpr = self.get_operand_value(shift, local)?;
            if amount.len() != word {
                return Err(GAError::ProjectError(ProjectError::UnabvalableOperation));
            }
            let wide: u32 = word + 1;
            proof {
                lemma_p_facts(wide as nat);
                crate::symex::executor::lemma_lt_pow2(word as nat);
                lemma_p_mono(word as nat, wide as nat);
                lemma_p_mono(1, wide as nat);
            }
            let amount: DExpr = amount.zero_ext(wide);
            if kind == 0 {
                let op: DExpr = value.zero_ext(wide);
                let shifted: DExpr = op.sll(&amount);
                let top: DExpr = self.constant(word as u64, wide);
                shifted.srl(&top).resize_unsigned(1)
            } else {
                let one: DExpr = self.constant(1, wide);
                let op: DExpr = value.zero_ext(wide).sll(&one);
                let shifted: DExpr = if kind == 1 {
                    op.srl(&amount)
                } else {
                    op.sra(&amount)
                };
                shifted.resize_unsigned(1)
            }
        };
        self.write_flag("C", carry);
        Ok(())
    }

    /// The constant value of an operand whose value is fixed without reading
    /// memory or hooks.
    pub open spec fn plain_const(s: GAState, local: NamedExprs, o: Operand) -> Option<u64> {
        match o {
            Operand::Immediate(d) => Some(d.value() as u64),
            Operand::Register(r) => if plain_source(s, local, o) {
                match last_named(s.project.register_read_hooks(), r@) {
                    None => s.registers.lookup(r@).const_value(),
                    Some(RegisterReadHook::LastPcPlusFour) => Some(s.hook_value(RegisterReadHook::LastPcPlusFour, Env {
                        vars: |n: Seq<char>| 0nat,
                        arrays: |n: Seq<char>, a: nat| 0nat,
                    }) as u64),
                    Some(_) => None,
                }
            } else {
                None
            },
            Operand::Local(k) => if local.contains(k@) {
                local.lookup(k@).const_value()
            } else {
                None
            },
            _ => None,
        }
    }

    /// The target of an unconditional jump to a constant.
    pub open spec fn always_jump_target(s: GAState, local: NamedExprs, op: Operation) -> Option<u64> {
        match op {
            Operation::ConditionalJump { destination, condition } => if condition == Condition::AL {
                Self::plain_const(s, local, destination)
            } else {
                None
            },
            _ => None,
        }
    }

    /// A jump to `destination` whose outcome is stated: the destination is a
    /// constant without memory or hooks, the program counter has no write
    /// hook, and its register is read without hooks and holds the program
    /// counter.
    pub open spec fn branch_premise(s: GAState, local: NamedExprs, destination: Operand) -> bool {
        &&& Self::plain_const(s, local, destination) is Some
        &&& last_named(s.project.register_write_hooks(), "PC"@) is None
        &&& Self::plain_pc(s) == Some(s.pc())
    }

    /// Under every assignment that the constraints of `after` admit, the
    /// jump went to `target` exactly when `condition` held in `before`;
    /// otherwise the program counter stayed.
    pub open spec fn branch_outcome(before: GAState, after: GAState, target: u64, condition: Condition) -> bool {
        forall|env: Env| #[trigger] after.constraints.holds(env) ==> after.pc() == if before.condition_value(
            condition,
            env,
        ) {
            target
        } else {
            before.pc()
        }
    }

    /// A fork of a conditional jump: the saved path resumes at the program
    /// counter of `before`, with its registers and constraints, under the
    /// negated condition; the current path adds the condition to its
    /// constraints and jumps.
    pub open spec fn fork_outcome(before: GAState, after: GAState, fork: Path, condition: Condition) -> bool {
        &&& fork.state.pc() == before.pc()
        &&& forall|k: Seq<char>| #[trigger] fork.state.registers.contains(k) == before.registers.contains(k)
        &&& forall|k: Seq<char>| #[trigger] fork.state.registers.lookup(k) == before.registers.lookup(k)
        &&& fork.state.constraints.assertions() == before.constraints.assertions()
        &&& fork.constraints@.len() == 1
        &&& forall|env: Env| #[trigger] fork.constraints@[0].eval(env) == bit(!before.condition_value(condition, env))
        &&& after.constraints.assertions().len() == before.constraints.assertions().len() + 1
        &&& after.constraints.assertions().drop_last() == before.constraints.assertions()
        &&& forall|env: Env| #[trigger] after.constraints.assertions().last().eval(env) == bit(
            before.condition_value(condition, env),
        )
        &&& after.jumped()
    }

    /// A fork loses no execution: every assignment that the constraints
    /// admitted before a conditional jump forked is admitted by the path
    /// that jumped, or by the saved path under its added constraint.
    pub proof fn law_fork_covers(before: GAState, after: GAState, fork: Path, condition: Condition, env: Env)
        requires
            Self::fork_outcome(before, after, fork, condition),
            before.constraints.holds(env),
        ensures
            after.constraints.holds(env) || (fork.state.constraints.holds(env) && fork.constraints@[0].eval(env)
                != 0),
    {
        let a = after.constraints.assertions();
        let b = before.constraints.assertions();
        if before.condition_value(condition, env) {
            assert forall|i: int| 0 <= i < a.len() implies (#[trigger] a[i]).eval(env) != 0 by {
                if i < b.len() {
                    assert(a[i] == a.drop_last()[i]);
                } else {
                    assert(a[i] == a.last());
                }
            }
        } else {
            assert(fork.constraints@[0].eval(env) == bit(!before.condition_value(condition, env)));
        }
    }

    /// Jumps to `destination` when `condition` holds. A condition that is
    /// neither known true nor known false forks the path: the copy continues
    /// without the jump, under the negated condition.
    #[verifier::rlimit(40)]
    fn exec_conditional_jump(&mut self, destination: &Operand, condition: Condition, local: &mut NamedExprs) -> (r: Result<(), GAError>)
        requires
            old(self).wf(),
            old(local).wf(),
            values_wf(*old(local)),
        ensures
            final(self).wf(),
            *final(local) == *old(local),
            final(self).project == old(self).project,
            final(self).current_operation_index == old(self).current_operation_index,
            final(self).forks@.len() >= old(self).forks@.len(),
            final(self).forks@.subrange(0, old(self).forks@.len() as int) == old(self).forks@,
            condition == Condition::AL && Self::plain_const(old(self).state, *old(local), *destination) is Some && last_named(
                old(self).project.register_write_hooks(),
                "PC"@,
            ) is None ==> {
                &&& r is Ok
                &&& final(self).state.pc() == Self::plain_const(old(self).state, *old(local), *destination).unwrap()
                &&& final(self).state.jumped()
                &&& final(self).forks == old(self).forks
            },
            final(self).forks@.len() <= old(self).forks@.len() + 1,
            Self::branch_premise(old(self).state, *old(local), *destination) && r is Ok ==> Self::branch_outcome(
                old(self).state,
                final(self).state,
                Self::plain_const(old(self).state, *old(local), *destination).unwrap(),
                condition,
            ),
            plain_source(old(self).state, *old(local), *destination) && final(self).forks@.len() == old(self).forks@.len()
                + 1 ==> Self::fork_outcome(old(self).state, final(self).state, final(self).forks@.last(), condition),
    {
        let dest_value: DExpr = self.get_operand_value(destination, local)?;
        let c: DExpr = self.state.get_expr(&condition).simplify();
        proof {
            if plain_source(old(self).state, *old(local), *destination) {
                assert(self.state == old(self).state);
            }
        }
        proof {
            reveal_strlit("PC");
            assert(self.forks@.subrange(0, self.forks@.len() as int) =~= self.forks@);
        }
        let ghost before = self.state;
        match c.get_constant_bool() {
            Some(taken) => {
                proof {
                    assert forall|env: Env| #[trigger] before.condition_value(condition, env) == taken by {
                        assert(c.eval(env) == bit(before.condition_value(condition, env)));
                        assert(c.eval(env) == c.const_value().unwrap());
                    }
                }
                if taken {
                    self.state.set_has_jumped();
                    return self.state.set_register(owned("PC"), dest_value);
                }
                return Ok(());
            },
            None => {},
        }
        let true_possible: bool = match self.state.constraints.is_sat_with_constraint(&c) {
            Ok(b) => b,
            Err(e) => return Err(GAError::SolverError(e)),
        };
        let not_c: DExpr = c.not();
        let false_possible: bool = match self.state.constraints.is_sat_with_constraint(&not_c) {
            Ok(b) => b,
            Err(e) => return Err(GAError::SolverError(e)),
        };
        let ghost forks_before = self.forks@;
        let target: DExpr = if true_possible && false_possible {
            let resume: Option<ContinueInsideInstruction> = match &self.state.current_instruction {
                Some(instruction) => if instruction.operations.len() > 0 && self.current_operation_index < instruction.operations.len() - 1 {
                    Some(ContinueInsideInstruction {
                        instruction: instruction.copy(),
                        index: self.current_operation_index + 1,
                        local: local.clone(),
                    })
                } else {
                    None
                },
                None => None,
            };
            if resume.is_some() {
                self.state.continue_in_instruction = resume;
            }
            self.fork(not_c);
            proof {
                lemma2_to64();
                assert(self.forks@.last().constraints@[0] == not_c);
                assert forall|env: Env| #[trigger] self.forks@.last().constraints@[0].eval(env) == bit(
                    !before.condition_value(condition, env),
                ) by {
                    assert(c.eval(env) == bit(before.condition_value(condition, env)));
                    assert(not_c.eval(env) == (p(1) - 1 - c.eval(env)) as nat);
                }
            }
            self.state.constraints.assert_expr(&c);
            self.state.set_has_jumped();
            proof {
                assert(self.state.constraints.assertions().drop_last() =~= before.constraints.assertions());
                assert forall|env: Env| #[trigger] self.state.constraints.holds(env) implies before.condition_value(
                    condition,
                    env,
                ) by {
                    let n: int = self.state.constraints.assertions().len() - 1;
                    assert(self.state.constraints.assertions()[n] == c);
                    assert(c.eval(env) != 0);
                    assert(c.eval(env) == bit(before.condition_value(condition, env)));
                }
            }
            dest_value
        } else if true_possible {
            self.state.set_has_jumped();
            proof {
                assert forall|env: Env| #[trigger] self.state.constraints.holds(env) implies before.condition_value(
                    condition,
                    env,
                ) by {
                    lemma2_to64();
                    assert(self.state.constraints == before.constraints);
                    assert(!(before.constraints.holds(env) && not_c.eval(env) != 0));
                    assert(not_c.eval(env) == (p(1) - 1 - c.eval(env)) as nat);
                    assert(c.eval(env) == bit(before.condition_value(condition, env)));
                }
            }
            dest_value
        } else if false_possible {
            proof {
                assert forall|env: Env| #[trigger] self.state.constraints.holds(env) implies !before.condition_value(
                    condition,
                    env,
                ) by {
                    assert(self.state.constraints == before.constraints);
                    assert(!(before.constraints.holds(env) && c.eval(env) != 0));
                    assert(c.eval(env) == bit(before.condition_value(condition, env)));
                }
            }
            self.state.get_register(owned("PC"))?
        } else {
            return Err(GAError::SolverError(SolverError::Unsat));
        };
        proof {
            assert(self.forks@.subrange(0, old(self).forks@.len() as int) =~= old(self).forks@);
        }
        self.state.set_register(owned("PC"), target)
    }

    /// Executes one operation: reads its operands, computes, and writes its
    /// destination; a jump whose condition can go both ways forks the path.
    pub fn execute_operation(&mut self, operation: &Operation, local: &mut NamedExprs) -> (r: Result<(), GAError>)
        requires
            old(self).wf(),
            old(local).wf(),
            values_wf(*old(local)),
        ensures
            final(self).wf(),
            final(local).wf(),
            values_wf(*final(local)),
            final(self).project == old(self).project,
            final(self).current_operation_index == old(self).current_operation_index,
            final(self).forks@.len() >= old(self).forks@.len(),
            final(self).forks@.subrange(0, old(self).forks@.len() as int) == old(self).forks@,
            plain_operation(old(self).state, *old(local), *operation) ==> r is Ok && plain_effect(
                old(self).state,
                *old(local),
                final(self).state,
                *final(local),
                *operation,
            ),
            memory_move_effect(old(self).state, *old(local), final(self).state, *final(local), *operation, r),
            !(*operation is ConditionalJump) ==> final(self).forks == old(self).forks,
            *operation matches Operation::ConditionalJump { destination, condition } ==> {
                &&& final(self).forks@.len() <= old(self).forks@.len() + 1
                &&& Self::branch_premise(old(self).state, *old(local), destination) && r is Ok ==> Self::branch_outcome(
                    old(self).state,
                    final(self).state,
                    Self::plain_const(old(self).state, *old(local), destination).unwrap(),
                    condition,
                )
                &&& plain_source(old(self).state, *old(local), destination) && final(self).forks@.len()
                    == old(self).forks@.len() + 1 ==> Self::fork_outcome(
                    old(self).state,
                    final(self).state,
                    final(self).forks@.last(),
                    condition,
                )
            },
            *operation is ForEach ==> *final(self) == *old(self) && *final(local) == *old(local) && r == Err::<
                (),
                GAError,
            >(GAError::ProjectError(ProjectError::UnabvalableOperation)),
            Self::always_jump_target(old(self).state, *old(local), *operation) is Some && last_named(
                old(self).project.register_write_hooks(),
                "PC"@,
            ) is None ==> r is Ok && final(self).state.jumped() && final(self).state.pc()
                == Self::always_jump_target(old(self).state, *old(local), *operation).unwrap(),
    {
        proof {
            assert(self.forks@.subrange(0, self.forks@.len() as int) =~= self.forks@);
        }
        match operation {
            Operation::Nop => Ok(()),
            Operation::Move { destination, source } => self.exec_unary(0, destination, source, local),
            Operation::Add { destination, operand1, operand2 } => self.exec_binary(BinOp::Add, destination, operand1, operand2, local),
            Operation::Adc { destination, operand1, operand2 } => self.exec_adc(destination, operand1, operand2, local),
            Operation::Sub { destination, operand1, operand2 } => self.exec_binary(BinOp::Sub, destination, operand1, operand2, local),
            Operation::Mul { destination, operand1, operand2 } => self.exec_binary(BinOp::Mul, destination, operand1, operand2, local),
            Operation::SDiv { destination, operand1, operand2 } => self.exec_binary(BinOp::SDiv, destination, operand1, operand2, local),
            Operation::UDiv { destination, operand1, operand2 } => self.exec_binary(BinOp::UDiv, destination, operand1, operand2, local),
            Operation::And { destination, operand1, operand2 } => self.exec_binary(BinOp::And, destination, operand1, operand2, local),
            Operation::Or { destination, operand1, operand2 } => self.exec_binary(BinOp::Or, destination, operand1, operand2, local),
            Operation::Xor { destination, operand1, operand2 } => self.exec_binary(BinOp::Xor, destination, operand1, operand2, local),
            Operation::Not { destination, operand } => self.exec_unary(1, destination, operand, local),
            Operation::Shift { destination, operand, shift_n, shift_t } => self.exec_shift(destination, operand, shift_n, *shift_t, local),
            Operation::Sl { destination, operand, shift } => self.exec_binary(BinOp::Shl, destination, operand, shift, local),
            Operation::Srl { destination, operand, shift } => self.exec_binary(BinOp::LShr, destination, operand, shift, local),
            Operation::Sra { destination, operand, shift } => self.exec_binary(BinOp::AShr, destination, operand, shift, local),
            Operation::Sror { destination, operand, shift } => self.exec_sror(destination, operand, shift, local),
            Operation::ZeroExtend { destination, operand, bits } => self.exec_extend(0, destination, operand, *bits, local),
            Operation::SignExtend { destination, operand, bits } => self.exec_extend(1, destination, operand, *bits, local),
            Operation::Resize { destination, operand, bits } => self.exec_extend(2, destination, operand, *bits, local),
            Operation::CountOnes { destination, operand } => self.exec_unary(2, destination, operand, local),
            Operation::CountZeroes { destination, operand } => self.exec_unary(3, destination, operand, local),
            Operation::CountLeadingOnes { destination, operand } => self.exec_unary(4, destination, operand, local),
            Operation::CountLeadingZeroes { destination, operand } => self.exec_unary(5, destination, operand, local),
            Operation::ConditionalJump { destination, condition } => self.exec_conditional_jump(destination, *condition, local),
            Operation::SetNFlag(operand) => self.exec_set_n(operand, local),
            Operation::SetZFlag(operand) => self.exec_set_z(operand, local),
            Operation::SetCFlag { operand1, operand2, sub, carry } => self.exec_set_cv(true, operand1, operand2, *sub, *carry, local),
            Operation::SetCFlagShiftLeft { operand, shift } => self.exec_carry_shift(0, operand, shift, local),
            Operation::SetCFlagSrl { operand, shift } => self.exec_carry_shift(1, operand, shift, local),
            Operation::SetCFlagSra { operand, shift } => self.exec_carry_shift(2, operand, shift, local),
            Operation::SetCFlagRor(operand) => self.exec_carry_shift(3, operand, operand, local),
            Operation::SetVFlag { operand1, operand2, sub, carry } => self.exec_set_cv(false, operand1, operand2, *sub, *carry, local),
            Operation::ForEach { .. } => Err(GAError::ProjectError(ProjectError::UnabvalableOperation)),
            Operation::ConditionalExecution { conditions } => {
                self.state.add_instruction_conditions(conditions);
                Ok(())
            },
        }
    }

    /// The value the program counter register holds when it can be read
    /// without hooks and is a constant of a word.
    pub open spec fn plain_pc(s: GAState) -> Option<u64> {
        if s.registers.contains("PC"@) && last_named(s.project.register_read_hooks(), "PC"@) is None
            && s.registers.lookup("PC"@).width() == s.project.word_bits() {
            s.registers.lookup("PC"@).const_value()
        } else {
            None
        }
    }

    /// `s0` is `before` as an instruction of `size` bits starts: the program
    /// counter register holds the address after the instruction, the
    /// instruction is counted, no branch is recorded, and the other
    /// registers, the flags, the memory, the constraints and the queued
    /// conditions are unchanged.
    /// As [`advanced`](Self::advanced), the condition that was queued first
    /// taken off the queue.
    pub open spec fn advanced_popping(before: GAState, s0: GAState, size: u32) -> bool {
        &&& s0.wf()
        &&& s0.project == before.project
        &&& s0.pc() as int == (Self::plain_pc(before).unwrap() + size / 8) % (p(before.project.word_bits()) as int)
        &&& s0.registers.contains("PC"@)
        &&& s0.registers.lookup("PC"@).const_value() == Some(s0.pc())
        &&& forall|k: Seq<char>| k != "PC"@ ==> (#[trigger] s0.registers.contains(k)) == before.registers.contains(k)
        &&& forall|k: Seq<char>| k != "PC"@ && before.registers.contains(k) ==> #[trigger] s0.registers.lookup(k)
            == before.registers.lookup(k)
        &&& s0.count() == if before.count() == usize::MAX {
            usize::MAX
        } else {
            (before.count() + 1) as usize
        }
        &&& !s0.jumped()
        &&& s0.flag_map() == before.flag_map()
        &&& s0.memory == before.memory
        &&& s0.constraints == before.constraints
        &&& s0.conditions() == before.conditions().drop_first()
    }

    pub open spec fn advanced(before: GAState, s0: GAState, size: u32) -> bool {
        &&& s0.wf()
        &&& s0.project == before.project
        &&& s0.pc() as int == (Self::plain_pc(before).unwrap() + size / 8) % (p(before.project.word_bits()) as int)
        &&& s0.registers.contains("PC"@)
        &&& s0.registers.lookup("PC"@).const_value() == Some(s0.pc())
        &&& forall|k: Seq<char>| k != "PC"@ ==> (#[trigger] s0.registers.contains(k)) == before.registers.contains(k)
        &&& forall|k: Seq<char>| k != "PC"@ && before.registers.contains(k) ==> #[trigger] s0.registers.lookup(k)
            == before.registers.lookup(k)
        &&& s0.count() == if before.count() == usize::MAX {
            usize::MAX
        } else {
            (before.count() + 1) as usize
        }
        &&& !s0.jumped()
        &&& s0.flag_map() == before.flag_map()
        &&& s0.memory == before.memory
        &&& s0.constraints == before.constraints
        &&& s0.conditions() == before.conditions()
    }

    /// One operation took `before`, with locals `lb`, to `after`, with locals
    /// `la`, and succeeded, with the effects that `execute_operation`
    /// ensures of it.
    pub open spec fn operation_step(before: GAState, lb: NamedExprs, after: GAState, la: NamedExprs, op: Operation) -> bool {
        &&& after.wf()
        &&& la.wf()
        &&& after.project == before.project
        &&& plain_operation(before, lb, op) ==> plain_effect(before, lb, after, la, op)
        &&& memory_move_effect(before, lb, after, la, op, Ok(()))
        &&& match op {
            Operation::ConditionalJump { destination, condition } => Self::branch_premise(before, lb, destination)
                ==> Self::branch_outcome(before, after, Self::plain_const(before, lb, destination).unwrap(), condition),
            _ => true,
        }
        &&& Self::always_jump_target(before, lb, op) is Some && last_named(
            before.project.register_write_hooks(),
            "PC"@,
        ) is None ==> after.jumped() && after.pc() == Self::always_jump_target(before, lb, op).unwrap()
    }

    /// The operations `ops` ran in order: `states[k]` and `locals[k]` are
    /// the state and the locals before operation `k`, and the last ones
    /// those after the last operation.
    /// Whether an instruction starts from `s` with a constant program
    /// counter that no hook writes and no condition queued.
    pub open spec fn plain_start(s: GAState<'p>) -> bool {
        &&& Self::plain_pc(s) is Some
        &&& last_named(s.project.register_write_hooks(), "PC"@) is None
        &&& s.conditions().len() == 0
    }

    /// `i` ran from `before` to `after`: the program counter moved past it,
    /// then its operations ran one after another from empty locals.
    pub open spec fn ran_instruction(before: GAState<'p>, after: GAState<'p>, i: Instruction) -> bool {
        exists|states: Seq<GAState<'p>>, locals: Seq<NamedExprs>|
            #![trigger Self::runs(states, locals, i.operations@)]
            Self::runs(states, locals, i.operations@) && Self::advanced(before, states[0], i.instruction_size) && (forall|
                k: Seq<char>,
            | !(#[trigger] locals[0].contains(k))) && states.last() == after
    }

    /// One step of a run from `a` to `b`, on one project: where no hook
    /// stands at the fetch address, the instruction decoded there was
    /// fetched, its cycles counted, and it ran (as [`ran_instruction`]
    /// says, when it starts plainly), and it became the last instruction.
    pub open spec fn run_step(a: GAState<'p>, b: GAState<'p>) -> bool {
        &&& b.project == a.project
        &&& crate::symex::project::last_for(a.project.pc_hook_entries(), a.fetch_address()) is None ==> exists|
            i: Instruction,
            m: GAState<'p>,
        |
            #![trigger a.project.gives_instruction(a.fetch_address(), i), Self::ran_instruction(a.cycles_advanced(), m, i)]
            a.project.gives_instruction(a.fetch_address(), i) && b == (GAState { last_instruction: Some(i), ..m }) && (
            Self::plain_start(a) ==> Self::ran_instruction(a.cycles_advanced(), m, i))
    }

    /// A run from `start`: each state steps to the next.
    pub open spec fn run_trace(trace: Seq<GAState<'p>>, start: GAState<'p>) -> bool {
        &&& trace.len() >= 1
        &&& trace[0] == start
        &&& forall|k: int| 0 <= k < trace.len() - 1 ==> #[trigger] Self::run_step(trace[k], trace[k + 1])
    }

    pub open spec fn runs(states: Seq<GAState<'p>>, locals: Seq<NamedExprs>, ops: Seq<Operation>) -> bool {
        &&& states.len() == ops.len() + 1
        &&& locals.len() == ops.len() + 1
        &&& forall|k: int| 0 <= k < ops.len() ==> Self::operation_step(
            states[k],
            locals[k],
            states[k + 1],
            locals[k + 1],
            #[trigger] ops[k],
        )
    }

    /// Executes an instruction: the program counter first moves past it;
    /// then, unless a queued condition rules it out, its operations run in
    /// order with fresh locals. A condition that can go both ways forks the
    /// path: the copy skips the instruction.
    pub fn execute_instruction(&mut self, i: &Instruction) -> (r: Result<(), GAError>)
        requires
            old(self).wf(),
        ensures
            final(self).wf(),
            final(self).project == old(self).project,
            final(self).forks@.len() >= old(self).forks@.len(),
            final(self).forks@.subrange(0, old(self).forks@.len() as int) == old(self).forks@,
            Self::plain_pc(old(self).state) is Some && last_named(old(self).project.register_write_hooks(), "PC"@)
                is None && i.operations@.len() == 0 ==> {
                &&& r is Ok
                &&& final(self).state.pc() as int == (Self::plain_pc(old(self).state).unwrap() + i.instruction_size / 8) % (p(
                    old(self).project.word_bits(),
                ) as int)
                &&& final(self).state.count() == if old(self).state.count() == usize::MAX {
                    usize::MAX
                } else {
                    (old(self).state.count() + 1) as usize
                }
                &&& !final(self).state.jumped()
            },
            Self::plain_pc(old(self).state) is Some && last_named(old(self).project.register_write_hooks(), "PC"@)
                is None && old(self).state.conditions().len() == 0 && r is Ok ==> exists|
                states: Seq<GAState<'p>>,
                locals: Seq<NamedExprs>,
            |
                #![trigger Self::runs(states, locals, i.operations@)]
                Self::runs(states, locals, i.operations@) && Self::advanced(
                    old(self).state,
                    states[0],
                    i.instruction_size,
                ) && (forall|k: Seq<char>| !(#[trigger] locals[0].contains(k))) && states.last() == final(self).state,
            Self::plain_start(old(self).state) && r is Ok ==> Self::ran_instruction(old(self).state, final(self).state, *i),
            Self::plain_pc(old(self).state) is Some && last_named(old(self).project.register_write_hooks(), "PC"@)
                is None && old(self).state.conditions().len() > 0 && old(self).state.conditions()[0] == Condition::AL
                && r is Ok ==> exists|states: Seq<GAState<'p>>, locals: Seq<NamedExprs>|
                #![trigger Self::runs(states, locals, i.operations@)]
                Self::runs(states, locals, i.operations@) && Self::advanced_popping(
                    old(self).state,
                    states[0],
                    i.instruction_size,
                ) && (forall|k: Seq<char>| !(#[trigger] locals[0].contains(k))) && states.last() == final(self).state,
            Self::plain_pc(old(self).state) is Some && last_named(old(self).project.register_write_hooks(), "PC"@)
                is None && old(self).state.conditions().len() > 0 && r is Ok ==> Self::advanced_popping(
                old(self).state,
                final(self).state,
                i.instruction_size,
            ) || exists|states: Seq<GAState<'p>>, locals: Seq<NamedExprs>|
                #![trigger Self::runs(states, locals, i.operations@)]
                Self::runs(states, locals, i.operations@) && Self::advanced_popping(
                    old(self).state,
                    (GAState { constraints: old(self).state.constraints, ..states[0] }),
                    i.instruction_size,
                ) && (forall|k: Seq<char>| !(#[trigger] locals[0].contains(k))) && states.last() == final(self).state,
            Self::plain_pc(old(self).state) is Some && last_named(old(self).project.register_write_hooks(), "PC"@)
                is None && old(self).state.conditions().len() > 0 && old(self).state.condition_fixed(
                old(self).state.conditions()[0],
            ) && r is Ok ==> if old(self).state.condition_value(old(self).state.conditions()[0], zero_env()) {
                exists|states: Seq<GAState<'p>>, locals: Seq<NamedExprs>|
                    #![trigger Self::runs(states, locals, i.operations@)]
                    Self::runs(states, locals, i.operations@) && Self::advanced_popping(
                        old(self).state,
                        states[0],
                        i.instruction_size,
                    ) && (forall|k: Seq<char>| !(#[trigger] locals[0].contains(k))) && states.last() == final(self).state
            } else {
                Self::advanced_popping(old(self).state, final(self).state, i.instruction_size)
            },
            Self::plain_pc(old(self).state) is Some && last_named(old(self).project.register_write_hooks(), "PC"@)
                is None && (old(self).state.conditions().len() == 0 || old(self).state.conditions()[0] == Condition::AL)
                && r is Err ==> exists|states: Seq<GAState<'p>>, locals: Seq<NamedExprs>, k: int|
                #![trigger Self::runs(states, locals, i.operations@.subrange(0, k))]
                0 <= k < i.operations@.len() && Self::runs(states, locals, i.operations@.subrange(0, k)) && (old(
                    self,
                ).state.conditions().len() == 0 ==> Self::advanced(old(self).state, states[0], i.instruction_size)) && (
                old(self).state.conditions().len() > 0 ==> Self::advanced_popping(
                    old(self).state,
                    states[0],
                    i.instruction_size,
                )) && (forall|k: Seq<char>| !(#[trigger] locals[0].contains(k))) && !plain_operation(
                    states.last(),
                    locals.last(),
                    i.operations@[k],
                ),
    {
        proof {
            reveal_strlit("PC");
            assert(self.forks@.subrange(0, self.forks@.len() as int) =~= self.forks@);
        }
        let new_pc: DExpr = self.state.get_register(owned("PC"))?;
        let last: u64 = match new_pc.get_constant() {
            Some(v) => v,
            None => return Err(GAError::ProjectError(ProjectError::UnabvalableOperation)),
        };
        self.state.last_pc = last;
        let ptr: u32 = self.project.get_ptr_size();
        if new_pc.len() != ptr {
            return Err(GAError::ProjectError(ProjectError::UnabvalableOperation));
        }
        let step: DExpr = self.state.ctx.from_u64((i.instruction_size / 8) as u64, ptr);
        proof {
            lemma_p_facts(ptr as nat);
            lemma2_to64();
            assert(((i.instruction_size / 8) as nat) < 0x2000_0000);
            if ptr < 32 {
                assert(p(ptr as nat) >= 256);
            }
        }
        let next_pc: DExpr = new_pc.add(&step);
        proof {
            let env = Env { vars: |n: Seq<char>| 0nat, arrays: |n: Seq<char>, a: nat| 0nat };
            let sz: nat = (i.instruction_size / 8) as nat;
            assert(next_pc.eval(env) == (last as nat + sz % p(ptr as nat)) % p(ptr as nat));
            vstd::arithmetic::div_mod::lemma_add_mod_noop_right(last as int, sz as int, p(ptr as nat) as int);
            assert(next_pc.const_value() == Some(((last as nat + sz) % p(ptr as nat)) as u64));
        }
        self.state.set_register(owned("PC"), next_pc)?;
        self.state.reset_has_jumped();
        self.state.increment_instruction_count();
        self.state.current_instruction = Some(i.copy());
        let ghost s_mid = self.state;
        let condition: Option<DExpr> = self.state.get_next_instruction_condition_expression();
        let ghost s_pre = self.state;
        let ghost cond_ghost = condition;
        let should_run: bool = match condition {
            Some(c) => match c.get_constant_bool() {
                Some(b) => b,
                None => {
                    let true_possible: bool = match self.state.constraints.is_sat_with_constraint(&c) {
                        Ok(b) => b,
                        Err(e) => return Err(GAError::SolverError(e)),
                    };
                    let not_c: DExpr = c.not();
                    let false_possible: bool = match self.state.constraints.is_sat_with_constraint(&not_c) {
                        Ok(b) => b,
                        Err(e) => return Err(GAError::SolverError(e)),
                    };
                    if true_possible && false_possible {
                        self.fork(not_c);
                        self.state.constraints.assert_expr(&c);
                    }
                    true_possible
                },
            },
            None => true,
        };
        let ghost forks_mid = self.forks@;
        let ghost premise: bool = Self::plain_pc(old(self).state) is Some && last_named(
            old(self).project.register_write_hooks(),
            "PC"@,
        ) is None && old(self).state.conditions().len() == 0;
        let ghost always: bool = Self::plain_pc(old(self).state) is Some && last_named(
            old(self).project.register_write_hooks(),
            "PC"@,
        ) is None && old(self).state.conditions().len() > 0 && old(self).state.conditions()[0] == Condition::AL;
        let ghost conditional: bool = Self::plain_pc(old(self).state) is Some && last_named(
            old(self).project.register_write_hooks(),
            "PC"@,
        ) is None && old(self).state.conditions().len() > 0;
        let ghost s0 = self.state;
        let ghost fixed: bool = conditional && old(self).state.condition_fixed(old(self).state.conditions()[0]);
        proof {
            if fixed {
                assert(s_mid.flag_map() == old(self).state.flag_map());
                assert(s_mid.conditions() == old(self).state.conditions());
                let c = cond_ghost.unwrap();
                assert(c.is_const());
                assert(c.eval(zero_env()) == bit(s_mid.condition_value(s_mid.conditions()[0], zero_env())));
                assert(s_mid.condition_value(s_mid.conditions()[0], zero_env()) == old(self).state.condition_value(
                    old(self).state.conditions()[0],
                    zero_env(),
                ));
                assert(should_run == old(self).state.condition_value(old(self).state.conditions()[0], zero_env()));
                assert(s0 == s_pre);
            }
            assert(!should_run ==> s0 == s_pre);
            assert(s0 == (GAState { constraints: s0.constraints, ..s_pre }));
            if conditional {
                assert(Self::advanced_popping(old(self).state, s_pre, i.instruction_size));
                assert((GAState { constraints: old(self).state.constraints, ..s0 }) == s_pre);
            }
            assert(forks_mid.subrange(0, old(self).forks@.len() as int) =~= old(self).forks@);
            if premise {
                assert(Self::advanced(old(self).state, s0, i.instruction_size));
            }
            if always {
                assert(Self::advanced_popping(old(self).state, s0, i.instruction_size));
                assert(should_run);
            }
        }
        let mut local: NamedExprs = NamedExprs::new();
        let ghost mut states: Seq<GAState<'p>> = seq![s0];
        let ghost mut locals: Seq<NamedExprs> = seq![local];
        proof {
            assert(Self::runs(states, locals, i.operations@.subrange(0, 0)));
        }
        if should_run && i.operations.len() > 0 {
            let mut n: usize = 0;
            while n < i.operations.len()
                invariant
                    self.wf(),
                    self.project == old(self).project,
                    local.wf(),
                    values_wf(local),
                    n <= i.operations@.len(),
                    self.forks@.len() >= old(self).forks@.len(),
                    self.forks@.subrange(0, old(self).forks@.len() as int) == old(self).forks@,
                    Self::runs(states, locals, i.operations@.subrange(0, n as int)),
                    states[0] == s0,
                    states.last() == self.state,
                    locals.last() == local,
                    forall|k: Seq<char>| !(#[trigger] locals[0].contains(k)),
                    premise == (Self::plain_pc(old(self).state) is Some && last_named(
                        old(self).project.register_write_hooks(),
                        "PC"@,
                    ) is None && old(self).state.conditions().len() == 0),
                    always == (Self::plain_pc(old(self).state) is Some && last_named(
                        old(self).project.register_write_hooks(),
                        "PC"@,
                    ) is None && old(self).state.conditions().len() > 0 && old(self).state.conditions()[0]
                        == Condition::AL),
                    premise ==> Self::advanced(old(self).state, s0, i.instruction_size),
                    conditional == (Self::plain_pc(old(self).state) is Some && last_named(
                        old(self).project.register_write_hooks(),
                        "PC"@,
                    ) is None && old(self).state.conditions().len() > 0),
                    conditional ==> Self::advanced_popping(
                        old(self).state,
                        (GAState { constraints: old(self).state.constraints, ..s0 }),
                        i.instruction_size,
                    ),
                    always ==> Self::advanced_popping(old(self).state, s0, i.instruction_size),
                decreases i.operations.len() - n,
            {
                self.current_operation_index = n;
                let ghost before = self.forks@;
                let ghost state_before = self.state;
                let ghost local_before = local;
                let step: Result<(), GAError> = self.execute_operation(&i.operations[n], &mut local);
                proof {
                    assert(self.forks@.subrange(0, old(self).forks@.len() as int) =~= before.subrange(
                        0,
                        old(self).forks@.len() as int,
                    ));
                }
                match step {
                    Ok(()) => {},
                    Err(e) => {
                        proof {
                            assert(!plain_operation(state_before, local_before, i.operations@[n as int]));
                            assert(Self::runs(states, locals, i.operations@.subrange(0, n as int)));
                        }
                        return Err(e);
                    },
                }
                proof {
                    let ghost prev_states = states;
                    let ghost prev_locals = locals;
                    assert(Self::operation_step(state_before, local_before, self.state, local, i.operations@[n as int]));
                    states = states.push(self.state);
                    locals = locals.push(local);
                    let ops = i.operations@.subrange(0, n as int + 1);
                    let prev_ops = i.operations@.subrange(0, n as int);
                    assert forall|k: int| 0 <= k < ops.len() implies Self::operation_step(
                        states[k],
                        locals[k],
                        states[k + 1],
                        locals[k + 1],
                        #[trigger] ops[k],
                    ) by {
                        if k < n {
                            assert(ops[k] == prev_ops[k]);
                            assert(Self::operation_step(prev_states[k], prev_locals[k], prev_states[k + 1], prev_locals[k + 1], prev_ops[k]));
                        }
                    }
                }
                n = n + 1;
            }
            proof {
                assert(i.operations@.subrange(0, i.operations@.len() as int) =~= i.operations@);
            }
        }
        proof {
            if (premise || always || conditional) && should_run {
                assert(i.operations@.len() == 0 ==> i.operations@.subrange(0, 0) =~= i.operations@);
                assert(Self::runs(states, locals, i.operations@));
            }
        }
        Ok(())
    }

    /// `a` and `b` agree on the registers, flags, memory, constraints,
    /// program counter, instruction count, branch record and queued
    /// conditions, and are of one project.
    pub open spec fn same_machine(a: GAState, b: GAState) -> bool {
        &&& a.project == b.project
        &&& a.registers == b.registers
        &&& a.flag_map() == b.flag_map()
        &&& a.memory == b.memory
        &&& a.constraints == b.constraints
        &&& a.pc() == b.pc()
        &&& a.count() == b.count()
        &&& a.jumped() == b.jumped()
        &&& a.conditions() == b.conditions()
    }

    /// Resumes an instruction at the saved operation, with the saved locals.
    pub fn continue_executing_instruction(&mut self, inst_to_continue: &ContinueInsideInstruction) -> (r: Result<(), GAError>)
        requires
            old(self).wf(),
            inst_to_continue.local.wf(),
            values_wf(inst_to_continue.local),
        ensures
            final(self).wf(),
            final(self).project == old(self).project,
            final(self).forks@.len() >= old(self).forks@.len(),
            final(self).forks@.subrange(0, old(self).forks@.len() as int) == old(self).forks@,
            inst_to_continue.index <= inst_to_continue.instruction.operations@.len() && r is Ok ==> exists|
                states: Seq<GAState<'p>>,
                locals: Seq<NamedExprs>,
            |
                #![trigger Self::runs(states, locals, inst_to_continue.instruction.operations@.subrange(inst_to_continue.index as int, inst_to_continue.instruction.operations@.len() as int))]
                Self::runs(
                    states,
                    locals,
                    inst_to_continue.instruction.operations@.subrange(
                        inst_to_continue.index as int,
                        inst_to_continue.instruction.operations@.len() as int,
                    ),
                ) && Self::same_machine(states[0], old(self).state) && (forall|k: Seq<char>| #[trigger] locals[0].contains(k)
                    == inst_to_continue.local.contains(k)) && (forall|k: Seq<char>| #[trigger] locals[0].lookup(k)
                    == inst_to_continue.local.lookup(k)) && states.last() == final(self).state,
            inst_to_continue.index >= inst_to_continue.instruction.operations@.len() ==> r is Ok,
            inst_to_continue.index <= inst_to_continue.instruction.operations@.len() && r is Err ==> exists|
                states: Seq<GAState<'p>>,
                locals: Seq<NamedExprs>,
                k: int,
            |
                #![trigger Self::runs(states, locals, inst_to_continue.instruction.operations@.subrange(inst_to_continue.index as int, k))]
                inst_to_continue.index <= k < inst_to_continue.instruction.operations@.len() && Self::runs(
                    states,
                    locals,
                    inst_to_continue.instruction.operations@.subrange(inst_to_continue.index as int, k),
                ) && Self::same_machine(states[0], old(self).state) && (forall|k: Seq<char>| #[trigger] locals[0].contains(k)
                    == inst_to_continue.local.contains(k)) && (forall|k: Seq<char>| #[trigger] locals[0].lookup(k)
                    == inst_to_continue.local.lookup(k)) && !plain_operation(
                    states.last(),
                    locals.last(),
                    inst_to_continue.instruction.operations@[k],
                ),
    {
        let mut local: NamedExprs = inst_to_continue.local.clone();
        proof {
            assert(values_wf(local)) by {
                assert forall|k: Seq<char>| #[trigger] local.contains(k) implies local.lookup(k).wf() by {
                    assert(inst_to_continue.local.contains(k));
                }
            }
            assert(self.forks@.subrange(0, self.forks@.len() as int) =~= self.forks@);
        }
        self.state.current_instruction = Some(inst_to_continue.instruction.copy());
        let operations = &inst_to_continue.instruction.operations;
        let mut n: usize = inst_to_continue.index;
        let ghost start: int = inst_to_continue.index as int;
        let ghost s0 = self.state;
        let ghost mut states: Seq<GAState<'p>> = seq![s0];
        let ghost mut locals: Seq<NamedExprs> = seq![local];
        proof {
            if start <= operations@.len() {
                assert(Self::runs(states, locals, operations@.subrange(start, start)));
            }
        }
        proof {
            assert(Self::same_machine(s0, old(self).state));
        }
        while n < operations.len()
            invariant
                self.wf(),
                self.project == old(self).project,
                operations@ == inst_to_continue.instruction.operations@,
                Self::same_machine(s0, old(self).state),
                local.wf(),
                values_wf(local),
                self.forks@.len() >= old(self).forks@.len(),
                self.forks@.subrange(0, old(self).forks@.len() as int) == old(self).forks@,
                start == inst_to_continue.index,
                start <= n,
                start <= operations@.len() ==> n <= operations@.len(),
                n <= operations@.len() ==> Self::runs(states, locals, operations@.subrange(start, n as int)),
                states.len() >= 1,
                states[0] == s0,
                states.last() == self.state,
                locals.last() == local,
                forall|k: Seq<char>| #[trigger] locals[0].contains(k) == inst_to_continue.local.contains(k),
                forall|k: Seq<char>| #[trigger] locals[0].lookup(k) == inst_to_continue.local.lookup(k),
            decreases operations.len() - n,
        {
            self.current_operation_index = n;
            let ghost before = self.forks@;
            let ghost state_before = self.state;
            let ghost local_before = local;
            let result: Result<(), GAError> = self.execute_operation(&operations[n], &mut local);
            proof {
                assert(self.forks@.subrange(0, old(self).forks@.len() as int) =~= before.subrange(
                    0,
                    old(self).forks@.len() as int,
                ));
            }
            match result {
                Ok(()) => {},
                Err(e) => {
                    proof {
                        assert(!plain_operation(state_before, local_before, operations@[n as int]));
                        assert(Self::runs(states, locals, operations@.subrange(start, n as int)));
                        assert(Self::same_machine(states[0], old(self).state));
                    }
                    return Err(e);
                },
            }
            proof {
                let ghost prev_states = states;
                let ghost prev_locals = locals;
                assert(Self::operation_step(state_before, local_before, self.state, local, operations@[n as int]));
                states = states.push(self.state);
                locals = locals.push(local);
                let ops = operations@.subrange(start, n as int + 1);
                let prev_ops = operations@.subrange(start, n as int);
                assert forall|k: int| 0 <= k < ops.len() implies Self::operation_step(
                    states[k],
                    locals[k],
                    states[k + 1],
                    locals[k + 1],
                    #[trigger] ops[k],
                ) by {
                    if k < n - start {
                        assert(ops[k] == prev_ops[k]);
                        assert(Self::operation_step(prev_states[k], prev_locals[k], prev_states[k + 1], prev_locals[k + 1], prev_ops[k]));
                    }
                }
            }
            n = n + 1;
        }
        proof {
            if start <= operations@.len() {
                assert(Self::same_machine(states[0], old(self).state));
                assert(Self::runs(states, locals, operations@.subrange(start, operations@.len() as int)));
            }
        }
        Ok(())
    }

    /// The built in routine that makes the `R1` bytes at the address in `R0`
    /// symbolic, then returns to the caller. The bytes are written as fresh
    /// values of at most eight bytes each, in order from the address, each
    /// under a new name.
    fn symbolic_sized(&mut self) -> (r: Result<(), GAError>)
        requires
            old(self).wf(),
        ensures
            final(self).wf(),
            final(self).project == old(self).project,
            final(self).forks == old(self).forks,
            r is Ok ==> exists|i: int|
                old(self).state.marked_symbolic@.len() <= i < final(self).state.marked_symbolic@.len() && Self::fresh_bytes(
                    #[trigger] final(self).state.marked_symbolic@[i],
                ),
            final(self).state.marked_symbolic@.len() >= old(self).state.marked_symbolic@.len(),
            final(self).state.marked_symbolic@.subrange(0, old(self).state.marked_symbolic@.len() as int)
                == old(self).state.marked_symbolic@,
    {
        proof {
            reveal_strlit("R0");
            reveal_strlit("R1");
            reveal_strlit("LR");
            reveal_strlit("PC");
        }
        let value_ptr: DExpr = self.state.get_register(owned("R0"))?;
        let size: DExpr = self.state.get_register(owned("R1"))?;
        let total: u64 = match size.get_constant() {
            Some(v) => v,
            None => return Err(GAError::ProjectError(ProjectError::UnabvalableOperation)),
        };
        let ptr: u32 = self.project.get_ptr_size();
        if total == 0 || value_ptr.len() != ptr {
            return Err(GAError::ProjectError(ProjectError::UnabvalableOperation));
        }
        let ghost start = self.state.marked_symbolic@;
        let mut done: u64 = 0;
        while done < total
            invariant
                self.wf(),
                self.project == old(self).project,
                self.forks == old(self).forks,
                done <= total,
                value_ptr.wf(),
                value_ptr.width() == ptr,
                ptr == self.project.word_bits(),
                self.state.marked_symbolic@.len() >= start.len(),
                self.state.marked_symbolic@.subrange(0, start.len() as int) == start,
                start.len() >= old(self).state.marked_symbolic@.len(),
                start.subrange(0, old(self).state.marked_symbolic@.len() as int) == old(self).state.marked_symbolic@,
                done > 0 ==> exists|i: int| start.len() <= i < self.state.marked_symbolic@.len() && Self::fresh_bytes(
                    #[trigger] self.state.marked_symbolic@[i],
                ),
            decreases total - done,
        {
            let left: u64 = total - done;
            let chunk: u64 = if left > 8 { 8 } else { left };
            let bits: u32 = (chunk * 8) as u32;
            let name: String = owned("any").concat(self.state.marked_symbolic.len().to_string().as_str());
            proof {
                reveal_strlit("any");
                assert(name@.subrange(0, 3) =~= "any"@);
            }
            let symbolic_value: DExpr = self.state.ctx.unconstrained(bits, name.as_str());
            let ghost before = self.state.marked_symbolic@;
            let ghost at: int = before.len() as int;
            self.state.marked_symbolic.push(Variable { name: Some(name), value: symbolic_value.clone(), bits });
            proof {
                assert(Self::fresh_bytes(self.state.marked_symbolic@[at]));
                assert(self.state.marked_symbolic@.subrange(0, start.len() as int) =~= before.subrange(0, start.len() as int));
            }
            let offset: DExpr = self.state.ctx.from_u64(done, ptr);
            let address: DExpr = value_ptr.add(&offset);
            match self.state.memory.write(&address, symbolic_value) {
                Ok(()) => {},
                Err(e) => return Err(GAError::MemoryError(e)),
            }
            done = done + chunk;
            proof {
                assert(start.len() <= at < self.state.marked_symbolic@.len());
                assert(Self::fresh_bytes(self.state.marked_symbolic@[at]));
            }
        }
        let ghost marked = self.state.marked_symbolic@;
        let lr: DExpr = self.state.get_register(owned("LR"))?;
        let result: Result<(), GAError> = self.state.set_register(owned("PC"), lr);
        proof {
            assert(self.state.marked_symbolic@.subrange(0, marked.len() as int) == marked);
            let i = choose|i: int| start.len() <= i < marked.len() && Self::fresh_bytes(#[trigger] marked[i]);
            assert(self.state.marked_symbolic@[i] == marked[i]);
            assert(self.state.marked_symbolic@.subrange(0, old(self).state.marked_symbolic@.len() as int)
                =~= marked.subrange(0, start.len() as int).subrange(0, old(self).state.marked_symbolic@.len() as int));
        }
        result
    }

    /// A variable made by the built in routine: named `any` and a number,
    /// a whole number of bytes wide, from one to eight, and not constant.
    pub open spec fn fresh_bytes(v: Variable) -> bool {
        &&& v.name matches Some(n) && n@.len() >= 3 && n@.subrange(0, 3) == "any"@
        &&& v.bits % 8 == 0
        &&& 8 <= v.bits <= 64
        &&& v.value.width() == v.bits
        &&& !v.value.is_const()
    }

    /// Runs the path until a hook ends it: resumes an interrupted
    /// instruction first, then fetches and executes instructions, running
    /// the hooks met on the way. A path ends successfully, in a failure or
    /// suppressed exactly at a hook of that kind.
    pub fn resume_execution(&mut self) -> (r: Result<PathResult, GAError>)
        requires
            old(self).wf(),
        ensures
            final(self).wf(),
            final(self).project == old(self).project,
            final(self).forks@.len() >= old(self).forks@.len(),
            final(self).forks@.subrange(0, old(self).forks@.len() as int) == old(self).forks@,
            r matches Ok(PathResult::Success(_)) ==> crate::symex::project::last_for(
                final(self).project.pc_hook_entries(),
                final(self).state.fetch_address(),
            ) matches Some(PCHook::EndSuccess),
            r matches Ok(PathResult::Suppress) ==> crate::symex::project::last_for(
                final(self).project.pc_hook_entries(),
                final(self).state.fetch_address(),
            ) matches Some(PCHook::Suppress),
            r matches Ok(PathResult::Faliure(reason)) ==> crate::symex::project::last_for(
                final(self).project.pc_hook_entries(),
                final(self).state.fetch_address(),
            ) == Some(PCHook::EndFaliure(reason)),
            old(self).state.continue_in_instruction is None ==> match crate::symex::project::last_for(
                old(self).project.pc_hook_entries(),
                old(self).state.fetch_address(),
            ) {
                Some(PCHook::EndSuccess) => r == Ok::<PathResult, GAError>(PathResult::Success(None)),
                Some(PCHook::EndFaliure(reason)) => r == Ok::<PathResult, GAError>(PathResult::Faliure(reason)),
                Some(PCHook::Suppress) => r == Ok::<PathResult, GAError>(PathResult::Suppress),
                _ => true,
            },
            old(self).state.continue_in_instruction is None && match crate::symex::project::last_for(
                old(self).project.pc_hook_entries(),
                old(self).state.fetch_address(),
            ) {
                Some(PCHook::EndSuccess) => true,
                Some(PCHook::EndFaliure(_)) => true,
                Some(PCHook::Suppress) => true,
                _ => false,
            } ==> final(self).state == old(self).state.cycles_advanced() && final(self).forks@ == old(self).forks@,
            old(self).state.continue_in_instruction is None && crate::symex::project::last_for(
                old(self).project.pc_hook_entries(),
                old(self).state.fetch_address(),
            ) is None ==> (old(self).project.fetch_error(old(self).state.fetch_address()) matches Some(e) ==> r
                == Err::<PathResult, GAError>(GAError::ProjectError(e))),
            old(self).state.continue_in_instruction is None ==> exists|trace: Seq<GAState<'p>>|
                #![trigger Self::run_trace(trace, old(self).state)]
                Self::run_trace(trace, old(self).state) && (r is Ok ==> final(self).state == trace.last().cycles_advanced()),
    {
        proof {
            reveal_strlit("LR");
            reveal_strlit("PC");
            assert(self.forks@.subrange(0, self.forks@.len() as int) =~= self.forks@);
        }
        let ghost ends_at_once: bool = old(self).state.continue_in_instruction is None && match crate::symex::project::last_for(
            old(self).project.pc_hook_entries(),
            old(self).state.fetch_address(),
        ) {
            Some(PCHook::EndSuccess) => true,
            Some(PCHook::EndFaliure(_)) => true,
            Some(PCHook::Suppress) => true,
            _ => false,
        };
        let ghost fails_at_once: bool = old(self).state.continue_in_instruction is None && crate::symex::project::last_for(
            old(self).project.pc_hook_entries(),
            old(self).state.fetch_address(),
        ) is None && old(self).project.fetch_error(old(self).state.fetch_address()) is Some;
        let pending: Option<ContinueInsideInstruction> = match &self.state.continue_in_instruction {
            Some(c) => Some(c.clone()),
            None => None,
        };
        match pending {
            Some(c) => {
                proof {
                    assert(values_wf(c.local)) by {
                        assert forall|k: Seq<char>| #[trigger] c.local.contains(k) implies c.local.lookup(k).wf() by {
                            assert(self.state.continue_in_instruction.unwrap().local.contains(k));
                        }
                    }
                }
                self.continue_executing_instruction(&c)?;
                self.state.continue_in_instruction = None;
                self.state.set_last_instruction(c.instruction);
            },
            None => {},
        }
        let ghost mut trace: Seq<GAState<'p>> = seq![self.state];
        let mut fuel: u64 = u64::MAX;
        while fuel > 0
            invariant
                self.wf(),
                self.project == old(self).project,
                old(self).state.continue_in_instruction is None ==> Self::run_trace(trace, old(self).state),
                trace.len() >= 1,
                trace.last() == self.state,
                ends_at_once ==> fuel == u64::MAX && self.state == old(self).state && self.forks@ == old(self).forks@,
                fails_at_once ==> fuel == u64::MAX && self.state == old(self).state,
                fails_at_once == (old(self).state.continue_in_instruction is None && crate::symex::project::last_for(
                    old(self).project.pc_hook_entries(),
                    old(self).state.fetch_address(),
                ) is None && old(self).project.fetch_error(old(self).state.fetch_address()) is Some),
                ends_at_once == (old(self).state.continue_in_instruction is None && match crate::symex::project::last_for(
                    old(self).project.pc_hook_entries(),
                    old(self).state.fetch_address(),
                ) {
                    Some(PCHook::EndSuccess) => true,
                    Some(PCHook::EndFaliure(_)) => true,
                    Some(PCHook::Suppress) => true,
                    _ => false,
                }),
                self.forks@.len() >= old(self).forks@.len(),
                self.forks@.subrange(0, old(self).forks@.len() as int) == old(self).forks@,
            decreases fuel,
        {
            fuel = fuel - 1;
            let ghost before = self.forks@;
            let ghost a = self.state;
            let next: HookOrInstruction = self.state.get_next_instruction()?;
            match next {
                HookOrInstruction::Instruction(instruction) => {
                    self.state.increment_cycle_count();
                    proof {
                        assert(Self::plain_start(a) == Self::plain_start(self.state));
                    }
                    self.execute_instruction(&instruction)?;
                    let ghost m = self.state;
                    self.state.set_last_instruction(instruction);
                    proof {
                        assert(crate::symex::project::last_for(a.project.pc_hook_entries(), a.fetch_address()) is None ==> (
                        a.project.gives_instruction(a.fetch_address(), instruction) && self.state == (GAState {
                            last_instruction: Some(instruction),
                            ..m
                        }) && (Self::plain_start(a) ==> Self::ran_instruction(a.cycles_advanced(), m, instruction))));
                        let ran = Self::ran_instruction(a.cycles_advanced(), m, instruction);
                        assert(Self::run_step(a, self.state));
                    }
                },
                HookOrInstruction::PcHook(PCHook::Continue) => {
                    let lr: DExpr = self.state.get_register(owned("LR"))?;
                    self.state.set_register(owned("PC"), lr)?;
                    proof {
                        assert(Self::run_step(a, self.state));
                    }
                },
                HookOrInstruction::PcHook(PCHook::EndSuccess) => {
                    self.state.increment_cycle_count();
                    return Ok(PathResult::Success(None));
                },
                HookOrInstruction::PcHook(PCHook::EndFaliure(reason)) => {
                    self.state.increment_cycle_count();
                    return Ok(PathResult::Faliure(reason));
                },
                HookOrInstruction::PcHook(PCHook::Suppress) => {
                    self.state.increment_cycle_count();
                    return Ok(PathResult::Suppress);
                },
                HookOrInstruction::PcHook(PCHook::Intrinsic(IntrinsicHook::SymbolicSized)) => {
                    self.symbolic_sized()?;
                    self.state.last_instruction = None;
                    proof {
                        assert(Self::run_step(a, self.state));
                    }
                },
            }
            proof {
                assert(self.forks@.subrange(0, old(self).forks@.len() as int) =~= before.subrange(
                    0,
                    old(self).forks@.len() as int,
                ));
                assert(Self::run_step(a, self.state));
                let prev = trace;
                trace = trace.push(self.state);
                if old(self).state.continue_in_instruction is None {
                    assert forall|k: int| 0 <= k < trace.len() - 1 implies #[trigger] Self::run_step(trace[k], trace[k + 1]) by {
                        if k < prev.len() - 1 {
                            assert(trace[k] == prev[k] && trace[k + 1] == prev[k + 1]);
                        } else {
                            assert(trace[k] == a && trace[k + 1] == self.state);
                        }
                    }
                    assert(trace[0] == prev[0]);
                }
            }
        }
        Err(GAError::ProjectError(ProjectError::UnabvalableOperation))
    }
}

/// Rotating right leaves the carry at the top bit of the result: after
/// `SetCFlagRor(x)` on a `w` bit word, the carry flag is bit `w - 1` of
/// `x`, that is 1 exactly when `x` is at least `2^(w-1)`, under every
/// assignment.
pub proof fn law_rotate_carry_is_top_bit(
    before: GAState,
    lb: NamedExprs,
    after: GAState,
    la: NamedExprs,
    operand: Operand,
    env: Env,
)
    requires
        plain_effect(before, lb, after, la, Operation::SetCFlagRor(operand)),
        1 <= before.project.word_bits() <= 64,
        source_value(before, lb, operand, env) < p(before.project.word_bits()),
    ensures
        after.flag_map().lookup("C"@).eval(env) == if source_value(before, lb, operand, env) >= p(
            (before.project.word_bits() - 1) as nat,
        ) {
            1nat
        } else {
            0nat
        },
{
    let w: nat = before.project.word_bits();
    let x: nat = source_value(before, lb, operand, env);
    let h: nat = p((w - 1) as nat);
    lemma_p_facts(w);
    lemma_p_facts((w - 1) as nat);
    assert(p(w) == 2 * h);
    if x >= h {
        assert(x / h == 1) by (nonlinear_arith)
            requires
                h <= x,
                x < 2 * h,
                h > 0,
        ;
    } else {
        vstd::arithmetic::div_mod::lemma_basic_div(x as int, h as int);
    }
}

/// A logical right shift leaves the carry at the last bit shifted out: after
/// `SetCFlagSrl { x, n }` on a `w` bit word, with `1 <= n <= w`, the carry
/// flag is bit `n - 1` of `x`, under every assignment.
pub proof fn law_right_shift_carry_is_last_bit_out(
    before: GAState,
    lb: NamedExprs,
    after: GAState,
    la: NamedExprs,
    operand: Operand,
    shift: Operand,
    env: Env,
)
    requires
        plain_effect(before, lb, after, la, Operation::SetCFlagSrl { operand, shift }),
        1 <= before.project.word_bits() < 64,
        source_value(before, lb, operand, env) < p(before.project.word_bits()),
        1 <= source_value(before, lb, shift, env) <= before.project.word_bits(),
    ensures
        after.flag_map().lookup("C"@).eval(env) == (source_value(before, lb, operand, env) / p(
            (source_value(before, lb, shift, env) - 1) as nat,
        )) % 2,
{
    let w: nat = before.project.word_bits();
    let x: nat = source_value(before, lb, operand, env);
    let n: nat = source_value(before, lb, shift, env);
    lemma_p_facts(w + 1);
    lemma_p_facts(n);
    lemma_p_facts(1);
    lemma_p_facts(0);
    vstd::arithmetic::power2::lemma2_to64();
    assert(p(1) == 2);
    assert(x * p(1) < p(w + 1));
    vstd::arithmetic::div_mod::lemma_small_mod(x * p(1), p(w + 1));
    assert(p(n) == 2 * p((n - 1) as nat));
    vstd::arithmetic::power2::lemma_pow2_pos((n - 1) as nat);
    vstd::arithmetic::div_mod::lemma_div_multiples_vanish_quotient(2, x as int, p((n - 1) as nat) as int);
    assert(x * p(1) == 2 * x);
}

} // verus!
