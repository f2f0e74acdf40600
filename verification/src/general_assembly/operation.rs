//! Operations of the general assembly language.
use vstd::prelude::*;
use crate::general_assembly::condition::Condition;
use crate::general_assembly::operand::Operand;
use crate::general_assembly::shift::Shift;

verus! {

/// A single operation.
#[derive(Debug)]
pub enum Operation {
    /// Does nothing.
    Nop,
    /// destination = source; memory operands are loaded or stored.
    Move { destination: Operand, source: Operand },
    /// destination = operand1 + operand2
    Add { destination: Operand, operand1: Operand, operand2: Operand },
    /// destination = operand1 + operand2 + C
    Adc { destination: Operand, operand1: Operand, operand2: Operand },
    /// destination = operand1 - operand2
    Sub { destination: Operand, operand1: Operand, operand2: Operand },
    /// destination = operand1 * operand2
    Mul { destination: Operand, operand1: Operand, operand2: Operand },
    /// destination = SInt(operand1) / SInt(operand2)
    SDiv { destination: Operand, operand1: Operand, operand2: Operand },
    /// destination = UInt(operand1) / UInt(operand2)
    UDiv { destination: Operand, operand1: Operand, operand2: Operand },
    /// destination = operand1 & operand2
    And { destination: Operand, operand1: Operand, operand2: Operand },
    /// destination = operand1 | operand2
    Or { destination: Operand, operand1: Operand, operand2: Operand },
    /// destination = operand1 ^ operand2
    Xor { destination: Operand, operand1: Operand, operand2: Operand },
    /// destination = !operand
    Not { destination: Operand, operand: Operand },
    /// A shift or rotation of the kind `shift_t` by `shift_n`.
    Shift { destination: Operand, operand: Operand, shift_n: Operand, shift_t: Shift },
    /// destination = operand << shift
    Sl { destination: Operand, operand: Operand, shift: Operand },
    /// destination = operand >> shift (logical)
    Srl { destination: Operand, operand: Operand, shift: Operand },
    /// destination = operand >> shift (arithmetic)
    Sra { destination: Operand, operand: Operand, shift: Operand },
    /// Rotates `operand` right by `shift` steps.
    Sror { destination: Operand, operand: Operand, shift: Operand },
    /// Zero extends the low `bits` bits of operand to a machine word.
    ZeroExtend { destination: Operand, operand: Operand, bits: u32 },
    /// Counts the ones in the operand.
    CountOnes { destination: Operand, operand: Operand },
    /// Counts the zeroes in the operand.
    CountZeroes { destination: Operand, operand: Operand },
    /// Counts the leading ones (from the most significant bit).
    CountLeadingOnes { destination: Operand, operand: Operand },
    /// Counts the leading zeroes (from the most significant bit).
    CountLeadingZeroes { destination: Operand, operand: Operand },
    /// Sign extends the low `bits` bits of operand to a machine word.
    SignExtend { destination: Operand, operand: Operand, bits: u32 },
    /// Resizes the operand to `bits` bits.
    Resize { destination: Operand, operand: Operand, bits: u32 },
    /// Jumps to `destination` when the condition holds.
    ConditionalJump { destination: Operand, condition: Condition },
    /// Sets the negative flag from the operand.
    SetNFlag(Operand),
    /// Sets the zero flag from the operand.
    SetZFlag(Operand),
    /// Sets the carry flag of an addition or subtraction.
    SetCFlag { operand1: Operand, operand2: Operand, sub: bool, carry: bool },
    /// Sets the carry flag of a left shift.
    SetCFlagShiftLeft { operand: Operand, shift: Operand },
    /// Sets the carry flag of a logical right shift.
    SetCFlagSrl { operand: Operand, shift: Operand },
    /// Sets the carry flag of an arithmetic right shift.
    SetCFlagSra { operand: Operand, shift: Operand },
    /// Sets the carry flag of a rotation.
    SetCFlagRor(Operand),
    /// Sets the overflow flag of an addition or subtraction.
    SetVFlag { operand1: Operand, operand2: Operand, sub: bool, carry: bool },
    /// Runs `operations` once for each operand.
    ForEach { operands: Vec<Operand>, operations: Vec<Operation> },
    /// The following instructions run only if their condition in the list holds.
    ConditionalExecution { conditions: Vec<Condition> },
}

/// Copies a list of operands element by element.
pub fn copy_operands(v: &Vec<Operand>) -> (r: Vec<Operand>)
    ensures
        r@ == v@,
{
    let mut r: Vec<Operand> = Vec::new();
    let mut i: usize = 0;
    while i < v.len()
        invariant
            i <= v.len(),
            r@ == v@.take(i as int),
        decreases v.len() - i,
    {
        r.push(v[i].clone());
        i = i + 1;
        assert(r@ =~= v@.take(i as int));
    }
    assert(v@.take(v.len() as int) =~= v@);
    r
}

/// Copies a list of conditions element by element.
pub fn copy_conditions(v: &Vec<Condition>) -> (r: Vec<Condition>)
    ensures
        r@ == v@,
{
    let mut r: Vec<Condition> = Vec::new();
    let mut i: usize = 0;
    while i < v.len()
        invariant
            i <= v.len(),
            r@ == v@.take(i as int),
        decreases v.len() - i,
    {
        r.push(v[i]);
        i = i + 1;
        assert(r@ =~= v@.take(i as int));
    }
    assert(v@.take(v.len() as int) =~= v@);
    r
}

/// Whether `a` is a copy of `b`: equal, where lists are compared by their
/// elements, and nested operation lists by their lengths.
pub open spec fn is_copy_of(a: Operation, b: Operation) -> bool {
    match (a, b) {
        (
            Operation::ForEach { operands: oa, operations: pa },
            Operation::ForEach { operands: ob, operations: pb },
        ) => oa@ == ob@ && pa@.len() == pb@.len(),
        (
            Operation::ConditionalExecution { conditions: ca },
            Operation::ConditionalExecution { conditions: cb },
        ) => ca@ == cb@,
        (Operation::ForEach { .. }, _) => false,
        (Operation::ConditionalExecution { .. }, _) => false,
        _ => a == b,
    }
}

/// Copies a list of operations, the nested ones included.
pub fn copy_operations(v: &Vec<Operation>) -> (r: Vec<Operation>)
    ensures
        r@.len() == v@.len(),
        forall|i: int| 0 <= i < v@.len() ==> is_copy_of(#[trigger] r@[i], v@[i]),
    decreases v@,
{
    let mut r: Vec<Operation> = Vec::new();
    let mut i: usize = 0;
    while i < v.len()
        invariant
            i <= v.len(),
            r@.len() == i,
            forall|j: int| 0 <= j < i ==> is_copy_of(#[trigger] r@[j], v@[j]),
        decreases v.len() - i,
    {
        assert(decreases_to!(v@ => v@[i as int]));
        r.push(copy_operation(&v[i]));
        i = i + 1;
    }
    r
}

/// Copies an operation, the nested ones included.
pub fn copy_operation(op: &Operation) -> (r: Operation)
    ensures
        is_copy_of(r, *op),
    decreases *op,
{
    match op {
        Operation::Nop => Operation::Nop,
        Operation::Move { destination, source } => Operation::Move {
            destination: destination.clone(),
            source: source.clone(),
        },
        Operation::Add { destination, operand1, operand2 } => Operation::Add {
            destination: destination.clone(),
            operand1: operand1.clone(),
            operand2: operand2.clone(),
        },
        Operation::Adc { destination, operand1, operand2 } => Operation::Adc {
            destination: destination.clone(),
            operand1: operand1.clone(),
            operand2: operand2.clone(),
        },
        Operation::Sub { destination, operand1, operand2 } => Operation::Sub {
            destination: destination.clone(),
            operand1: operand1.clone(),
            operand2: operand2.clone(),
        },
        Operation::Mul { destination, operand1, operand2 } => Operation::Mul {
            destination: destination.clone(),
            operand1: operand1.clone(),
            operand2: operand2.clone(),
        },
        Operation::SDiv { destination, operand1, operand2 } => Operation::SDiv {
            destination: destination.clone(),
            operand1: operand1.clone(),
            operand2: operand2.clone(),
        },
        Operation::UDiv { destination, operand1, operand2 } => Operation::UDiv {
            destination: destination.clone(),
            operand1: operand1.clone(),
            operand2: operand2.clone(),
        },
        Operation::And { destination, operand1, operand2 } => Operation::And {
            destination: destination.clone(),
            operand1: operand1.clone(),
            operand2: operand2.clone(),
        },
        Operation::Or { destination, operand1, operand2 } => Operation::Or {
            destination: destination.clone(),
            operand1: operand1.clone(),
            operand2: operand2.clone(),
        },
        Operation::Xor { destination, operand1, operand2 } => Operation::Xor {
            destination: destination.clone(),
            operand1: operand1.clone(),
            operand2: operand2.clone(),
        },
        Operation::Not { destination, operand } => Operation::Not {
            destination: destination.clone(),
            operand: operand.clone(),
        },
        Operation::Shift { destination, operand, shift_n, shift_t } => Operation::Shift {
            destination: destination.clone(),
            operand: operand.clone(),
            shift_n: shift_n.clone(),
            shift_t: *shift_t,
        },
        Operation::Sl { destination, operand, shift } => Operation::Sl {
            destination: destination.clone(),
            operand: operand.clone(),
            shift: shift.clone(),
        },
        Operation::Srl { destination, operand, shift } => Operation::Srl {
            destination: destination.clone(),
            operand: operand.clone(),
            shift: shift.clone(),
        },
        Operation::Sra { destination, operand, shift } => Operation::Sra {
            destination: destination.clone(),
            operand: operand.clone(),
            shift: shift.clone(),
        },
        Operation::Sror { destination, operand, shift } => Operation::Sror {
            destination: destination.clone(),
            operand: operand.clone(),
            shift: shift.clone(),
        },
        Operation::ZeroExtend { destination, operand, bits } => Operation::ZeroExtend {
            destination: destination.clone(),
            operand: operand.clone(),
            bits: *bits,
        },
        Operation::CountOnes { destination, operand } => Operation::CountOnes {
            destination: destination.clone(),
            operand: operand.clone(),
        },
        Operation::CountZeroes { destination, operand } => Operation::CountZeroes {
            destination: destination.clone(),
            operand: operand.clone(),
        },
        Operation::CountLeadingOnes { destination, operand } => Operation::CountLeadingOnes {
            destination: destination.clone(),
            operand: operand.clone(),
        },
        Operation::CountLeadingZeroes { destination, operand } => Operation::CountLeadingZeroes {
            destination: destination.clone(),
            operand: operand.clone(),
        },
        Operation::SignExtend { destination, operand, bits } => Operation::SignExtend {
            destination: destination.clone(),
            operand: operand.clone(),
            bits: *bits,
        },
        Operation::Resize { destination, operand, bits } => Operation::Resize {
            destination: destination.clone(),
            operand: operand.clone(),
            bits: *bits,
        },
        Operation::ConditionalJump { destination, condition } => Operation::ConditionalJump {
            destination: destination.clone(),
            condition: *condition,
        },
        Operation::SetNFlag(o) => Operation::SetNFlag(o.clone()),
        Operation::SetZFlag(o) => Operation::SetZFlag(o.clone()),
        Operation::SetCFlag { operand1, operand2, sub, carry } => Operation::SetCFlag {
            operand1: operand1.clone(),
            operand2: operand2.clone(),
            sub: *sub,
            carry: *carry,
        },
        Operation::SetCFlagShiftLeft { operand, shift } => Operation::SetCFlagShiftLeft {
            operand: operand.clone(),
            shift: shift.clone(),
        },
        Operation::SetCFlagSrl { operand, shift } => Operation::SetCFlagSrl {
            operand: operand.clone(),
            shift: shift.clone(),
        },
        Operation::SetCFlagSra { operand, shift } => Operation::SetCFlagSra {
            operand: operand.clone(),
            shift: shift.clone(),
        },
        Operation::SetCFlagRor(o) => Operation::SetCFlagRor(o.clone()),
        Operation::SetVFlag { operand1, operand2, sub, carry } => Operation::SetVFlag {
            operand1: operand1.clone(),
            operand2: operand2.clone(),
            sub: *sub,
            carry: *carry,
        },
        Operation::ForEach { operands, operations } => Operation::ForEach {
            operands: copy_operands(operands),
            operations: copy_operations(operations),
        },
        Operation::ConditionalExecution { conditions } => Operation::ConditionalExecution {
            conditions: copy_conditions(conditions),
        },
    }
}

impl Clone for Operation {
    fn clone(&self) -> (r: Operation)
        ensures
            is_copy_of(r, *self),
    {
        copy_operation(self)
    }
}

} // verus!
