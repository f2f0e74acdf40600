//! What running the general assembly of an ARMv7-M instruction does to the
//! flags.
use vstd::prelude::*;
use crate::arch::arm::registers::Register;
use crate::arch::arm::v7::decoder::{add_jumps, add_reg_seq, bitwise_imm_seq, imm32, is_flag, is_local, is_named, option_set,
    translation_of, v7_register_name};
use crate::arch::arm::v7::operation::{ImmShift, SetFlags, V7Operation, sets_flags};
use crate::general_assembly::operand::Operand;
use crate::general_assembly::operation::Operation;
use crate::symex::ga_executor::{GAExecutor, plain_operation, source_value, destination_value};
use crate::smt::bits::p;
use crate::smt::expr::Env;
use crate::symex::named::NamedExprs;
use crate::symex::state::GAState;

verus! {

/// Whether an operation writes a register or a local and no flag.
pub open spec fn writes_no_flag(op: Operation) -> bool {
    op is Move || op is Add || op is Shift || op is Nop
}

/// Plain operations that write no flag, run one after another, leave the
/// flags of the first state in every later one.
proof fn lemma_runs_keep_flags<'p>(states: Seq<GAState<'p>>, locals: Seq<NamedExprs>, ops: Seq<Operation>, i: int)
    requires
        GAExecutor::runs(states, locals, ops),
        0 <= i <= ops.len(),
        forall|k: int| 0 <= k < ops.len() ==> plain_operation(states[k], locals[k], #[trigger] ops[k]) && writes_no_flag(
            ops[k],
        ),
    ensures
        states[i].flag_map() == states[0].flag_map(),
    decreases i,
{
    if i > 0 {
        lemma_runs_keep_flags(states, locals, ops, i - 1);
        let k = i - 1;
        assert(plain_operation(states[k], locals[k], ops[k]) && writes_no_flag(ops[k]));
        assert(GAExecutor::operation_step(states[k], locals[k], states[k + 1], locals[k + 1], ops[k]));
    }
}

/// An ARMv7-M register add that does not set the flags leaves them alone:
/// when its translation (for the IT block state `in_it_block` in which its
/// set-flags field asks for no flags, and with a destination other than the
/// program counter) runs through the executor, each operation plain, the
/// flags after it are the flags before it.
pub proof fn law_add_register_keeps_flags<'p>(
    s: Option<SetFlags>,
    rd: Option<Register>,
    rn: Register,
    rm: Register,
    shift: Option<ImmShift>,
    in_it_block: bool,
    ops: Seq<Operation>,
    states: Seq<GAState<'p>>,
    locals: Seq<NamedExprs>,
)
    requires
        translation_of(V7Operation::AddRegister { s, rd, rn, rm, shift }, in_it_block, ops),
        !sets_flags(s, in_it_block),
        !add_jumps(rd, rn),
        GAExecutor::runs(states, locals, ops),
        forall|k: int| 0 <= k < ops.len() ==> #[trigger] plain_operation(states[k], locals[k], ops[k]),
    ensures
        states.last().flag_map() == states[0].flag_map(),
{
    let (result, shifted, rn_o, rd_o, rm_o, c) = choose|
        result: Operand,
        shifted: Operand,
        rn_o: Operand,
        rd_o: Operand,
        rm_o: Operand,
        c: Operand,
    | ops == add_reg_seq(result, shifted, rn_o, rd_o, rm_o, c, shift, sets_flags(s, in_it_block), add_jumps(rd, rn));
    assert(ops == add_reg_seq(result, shifted, rn_o, rd_o, rm_o, c, shift, false, false));
    assert forall|k: int| 0 <= k < ops.len() implies plain_operation(states[k], locals[k], #[trigger] ops[k])
        && writes_no_flag(ops[k]) by {
        assert(plain_operation(states[k], locals[k], ops[k]));
    }
    lemma_runs_keep_flags(states, locals, ops, ops.len() as int);
}

/// MVN with an immediate writes the bitwise complement of the immediate:
/// when the translation of `MVN rd, #imm` runs through the executor, its
/// first two operations plain, then once `rd` is written it holds `!imm`
/// (every bit of the immediate flipped) under every assignment.
pub proof fn law_mvn_immediate_complements<'p>(
    s: Option<bool>,
    rd: Register,
    carry: Option<bool>,
    imm: u32,
    in_it_block: bool,
    ops: Seq<Operation>,
    states: Seq<GAState<'p>>,
    locals: Seq<NamedExprs>,
    env: Env,
)
    requires
        translation_of(V7Operation::MvnImmediate { s, rd, carry, imm }, in_it_block, ops),
        GAExecutor::runs(states, locals, ops),
        plain_operation(states[0], locals[0], ops[0]),
        plain_operation(states[1], locals[1], ops[1]),
    ensures
        states[2].registers.lookup(v7_register_name(rd)).eval(env) == (!imm) as nat,
{
    let (result, rd_o, c) = choose|result: Operand, rd_o: Operand, c: Operand|
        #![trigger bitwise_imm_seq(Operation::Not { destination: result, operand: imm32(imm) }, result, rd_o, c, option_set(s), carry)]
        is_local(result, "result"@) && is_named(rd_o, v7_register_name(rd)) && is_flag(c, "C"@) && ops
            == bitwise_imm_seq(Operation::Not { destination: result, operand: imm32(imm) }, result, rd_o, c, option_set(s), carry);
    assert(ops[0] == Operation::Not { destination: result, operand: imm32(imm) });
    assert(ops[1] == Operation::Move { destination: rd_o, source: result });
    assert(GAExecutor::operation_step(states[0], locals[0], states[1], locals[1], ops[0]));
    assert(GAExecutor::operation_step(states[1], locals[1], states[2], locals[2], ops[1]));
    let complement: nat = destination_value(states[1], locals[1], result, env);
    assert(complement == (p(32) - 1 - imm) as nat);
    assert(destination_value(states[2], locals[2], rd_o, env) == source_value(states[1], locals[1], result, env));
    vstd::arithmetic::power2::lemma2_to64();
    assert(!imm == 0xffff_ffffu32 - imm) by (bit_vector);
}

} // verus!
