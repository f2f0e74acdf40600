//! What running the general assembly of an ARMv6-M instruction computes.
use vstd::prelude::*;
use crate::arch::arm::registers::{Register, register_name};
use crate::arch::arm::v6::instruction::V6Operation;
use crate::arch::arm::v6::translate::translation_of;
use crate::general_assembly::operation::Operation;
use crate::smt::expr::Env;
use crate::smt::expr::{BinOp, bin_sem};
use crate::symex::ga_executor::{GAExecutor, binary_parts, destination_value, plain_operation, source_value, source_width};
use crate::symex::named::NamedExprs;
use crate::symex::project::last_named;
use crate::symex::state::GAState;

verus! {

/// `EORS dn, m` is an exclusive or: when its translation runs through the
/// executor, each operation plain and neither register read through a hook,
/// `dn` ends up holding the bitwise exclusive or of the values `dn` and `m`
/// held before, under every assignment.
pub proof fn law_eor_register_is_exclusive_or<'p>(
    m: Register,
    dn: Register,
    ops: Seq<Operation>,
    states: Seq<GAState<'p>>,
    locals: Seq<NamedExprs>,
    env: Env,
)
    requires
        translation_of(V6Operation::EORReg { m, dn }, ops),
        GAExecutor::runs(states, locals, ops),
        forall|k: int| 0 <= k < ops.len() ==> #[trigger] plain_operation(states[k], locals[k], ops[k]),
        last_named(states[0].project.register_read_hooks(), register_name(dn)) is None,
        last_named(states[0].project.register_read_hooks(), register_name(m)) is None,
    ensures
        states.last().registers.lookup(register_name(dn)).eval(env) == ((states[0].registers.lookup(
            register_name(dn),
        ).eval(env) as u64) ^ (states[0].registers.lookup(register_name(m)).eval(env) as u64)) as nat,
{
    let a: nat = states[0].registers.lookup(register_name(dn)).eval(env);
    let b: nat = states[0].registers.lookup(register_name(m)).eval(env);
    assert(plain_operation(states[0], locals[0], ops[0]));
    assert(plain_operation(states[1], locals[1], ops[1]));
    assert(plain_operation(states[2], locals[2], ops[2]));
    assert(GAExecutor::operation_step(states[0], locals[0], states[1], locals[1], ops[0]));
    assert(GAExecutor::operation_step(states[1], locals[1], states[2], locals[2], ops[1]));
    assert(GAExecutor::operation_step(states[2], locals[2], states[3], locals[3], ops[2]));
    match ops[0] {
        Operation::Xor { destination, operand1, operand2 } => {
            assert(binary_parts(ops[0]) == Some((BinOp::Xor, destination, operand1, operand2)));
            assert(source_value(states[0], locals[0], operand1, env) == a);
            assert(source_value(states[0], locals[0], operand2, env) == b);
            assert(destination_value(states[1], locals[1], destination, env) == bin_sem(
                BinOp::Xor,
                source_width(states[0], locals[0], operand1),
                source_width(states[0], locals[0], operand2),
                a,
                b,
            ));
            assert(states[1].registers.lookup(register_name(dn)).eval(env) == ((a as u64) ^ (b as u64)) as nat);
        },
        _ => {},
    }
    assert(states[3].registers == states[1].registers);
    assert(states.last() == states[3]);
}

/// `ANDS dn, m` is a bitwise and: when its translation runs through the
/// executor, each operation plain and neither register read through a hook,
/// `dn` ends up holding the bitwise and of the values `dn` and `m`
/// held before, under every assignment.
pub proof fn law_and_register_is_bitwise_and<'p>(
    m: Register,
    dn: Register,
    ops: Seq<Operation>,
    states: Seq<GAState<'p>>,
    locals: Seq<NamedExprs>,
    env: Env,
)
    requires
        translation_of(V6Operation::ANDReg { m, dn }, ops),
        GAExecutor::runs(states, locals, ops),
        forall|k: int| 0 <= k < ops.len() ==> #[trigger] plain_operation(states[k], locals[k], ops[k]),
        last_named(states[0].project.register_read_hooks(), register_name(dn)) is None,
        last_named(states[0].project.register_read_hooks(), register_name(m)) is None,
    ensures
        states.last().registers.lookup(register_name(dn)).eval(env) == ((states[0].registers.lookup(
            register_name(dn),
        ).eval(env) as u64) & (states[0].registers.lookup(register_name(m)).eval(env) as u64)) as nat,
{
    let a: nat = states[0].registers.lookup(register_name(dn)).eval(env);
    let b: nat = states[0].registers.lookup(register_name(m)).eval(env);
    assert(plain_operation(states[0], locals[0], ops[0]));
    assert(plain_operation(states[1], locals[1], ops[1]));
    assert(plain_operation(states[2], locals[2], ops[2]));
    assert(GAExecutor::operation_step(states[0], locals[0], states[1], locals[1], ops[0]));
    assert(GAExecutor::operation_step(states[1], locals[1], states[2], locals[2], ops[1]));
    assert(GAExecutor::operation_step(states[2], locals[2], states[3], locals[3], ops[2]));
    match ops[0] {
        Operation::And { destination, operand1, operand2 } => {
            assert(binary_parts(ops[0]) == Some((BinOp::And, destination, operand1, operand2)));
            assert(source_value(states[0], locals[0], operand1, env) == a);
            assert(source_value(states[0], locals[0], operand2, env) == b);
            assert(destination_value(states[1], locals[1], destination, env) == bin_sem(
                BinOp::And,
                source_width(states[0], locals[0], operand1),
                source_width(states[0], locals[0], operand2),
                a,
                b,
            ));
            assert(states[1].registers.lookup(register_name(dn)).eval(env) == ((a as u64) & (b as u64)) as nat);
        },
        _ => {},
    }
    assert(states[3].registers == states[1].registers);
    assert(states.last() == states[3]);
}

/// `ORRS dn, m` is a bitwise or: when its translation runs through the
/// executor, each operation plain and neither register read through a hook,
/// `dn` ends up holding the bitwise inclusive or of the values `dn` and `m`
/// held before, under every assignment.
pub proof fn law_orr_register_is_bitwise_or<'p>(
    m: Register,
    dn: Register,
    ops: Seq<Operation>,
    states: Seq<GAState<'p>>,
    locals: Seq<NamedExprs>,
    env: Env,
)
    requires
        translation_of(V6Operation::ORRReg { m, dn }, ops),
        GAExecutor::runs(states, locals, ops),
        forall|k: int| 0 <= k < ops.len() ==> #[trigger] plain_operation(states[k], locals[k], ops[k]),
        last_named(states[0].project.register_read_hooks(), register_name(dn)) is None,
        last_named(states[0].project.register_read_hooks(), register_name(m)) is None,
    ensures
        states.last().registers.lookup(register_name(dn)).eval(env) == ((states[0].registers.lookup(
            register_name(dn),
        ).eval(env) as u64) | (states[0].registers.lookup(register_name(m)).eval(env) as u64)) as nat,
{
    let a: nat = states[0].registers.lookup(register_name(dn)).eval(env);
    let b: nat = states[0].registers.lookup(register_name(m)).eval(env);
    assert(plain_operation(states[0], locals[0], ops[0]));
    assert(plain_operation(states[1], locals[1], ops[1]));
    assert(plain_operation(states[2], locals[2], ops[2]));
    assert(GAExecutor::operation_step(states[0], locals[0], states[1], locals[1], ops[0]));
    assert(GAExecutor::operation_step(states[1], locals[1], states[2], locals[2], ops[1]));
    assert(GAExecutor::operation_step(states[2], locals[2], states[3], locals[3], ops[2]));
    match ops[0] {
        Operation::Or { destination, operand1, operand2 } => {
            assert(binary_parts(ops[0]) == Some((BinOp::Or, destination, operand1, operand2)));
            assert(source_value(states[0], locals[0], operand1, env) == a);
            assert(source_value(states[0], locals[0], operand2, env) == b);
            assert(destination_value(states[1], locals[1], destination, env) == bin_sem(
                BinOp::Or,
                source_width(states[0], locals[0], operand1),
                source_width(states[0], locals[0], operand2),
                a,
                b,
            ));
            assert(states[1].registers.lookup(register_name(dn)).eval(env) == ((a as u64) | (b as u64)) as nat);
        },
        _ => {},
    }
    assert(states[3].registers == states[1].registers);
    assert(states.last() == states[3]);
}

} // verus!
