use symex::arch::arm::isa::ArmIsa;
use symex::arch::arm::registers::{ArmCondition, Register};
use symex::arch::arm::v7::decoder::{try_convert, Convert};
use symex::arch::arm::v7::operation::{ImmShift, SetFlags, V7Operation};
use symex::general_assembly::operand::{DataWord, Operand};
use symex::general_assembly::operation::Operation;
use symex::general_assembly::shift::Shift;
use symex::smt::expr::DContext;
use symex::smt::solver::DSolver;
use symex::symex::ga_executor::GAExecutor;
use symex::symex::instruction::{CycleCount, Instruction};
use symex::symex::named::NamedExprs;
use symex::symex::project::Project;
use symex::symex::state::GAState;
use symex::symex::types::{Endianness, WordSize};
use symex::arch::errors::ArchError;
use symex::general_assembly::condition::Condition;

/// An executor on an empty ARMv7-M project, with the program counter at zero
/// and the stack at the top of the address space.
fn v7_executor() -> GAExecutor<'static> {
    let project: &'static Project = Box::leak(Box::new(Project::from_parts(
        vec![],
        0,
        0,
        WordSize::Bit32,
        Endianness::Little,
        ArmIsa::ArmV7EM,
        vec![],
        &vec![],
        vec![],
    )));
    let ctx = DContext::new();
    let solver = DSolver::new(&ctx);
    let state = GAState::create_test_state(project, &ctx, solver, 0, u32::MAX as u64);
    GAExecutor::from_state(state, project)
}

fn store(executor: &mut GAExecutor<'static>, destination: Operand, value: u32) {
    let operation = Operation::Move { destination, source: Operand::Immediate(DataWord::Word32(value)) };
    executor.execute_operation(&operation, &mut NamedExprs::new()).expect("Malformed test");
}

fn set_register(executor: &mut GAExecutor<'static>, name: &str, value: u32) {
    store(executor, Operand::Register(name.to_owned()), value);
}

fn set_flag(executor: &mut GAExecutor<'static>, name: &str, value: u32) {
    store(executor, Operand::Flag(name.to_owned()), value);
}

fn set_address(executor: &mut GAExecutor<'static>, address: u32, width: u32, value: u32) {
    store(executor, Operand::Address(DataWord::Word32(address), width), value);
}

fn load(executor: &mut GAExecutor<'static>, operand: Operand) -> u64 {
    executor
        .get_operand_value(&operand, &NamedExprs::new())
        .expect("Could not find a test specified operand")
        .get_constant()
        .expect("Could not get test specified operand as constant")
}

fn register(executor: &mut GAExecutor<'static>, name: &str) -> u64 {
    load(executor, Operand::Register(name.to_owned()))
}

fn flag(executor: &mut GAExecutor<'static>, name: &str) -> u64 {
    load(executor, Operand::Flag(name.to_owned()))
}

fn address(executor: &mut GAExecutor<'static>, address: u32, width: u32) -> u64 {
    load(executor, Operand::Address(DataWord::Word32(address), width))
}


fn run(executor: &mut GAExecutor<'static>, operation: V7Operation) {
    let instruction = Instruction {
        operations: (32, operation).convert(false),
        instruction_size: 32,
        max_cycle: CycleCount::Value(0),
    };
    executor.execute_instruction(&instruction).expect("Malformed instruction");
}

fn untranslated() -> ArchError {
    ArchError::ImplementorStringError("operation without a translation")
}

#[test]
fn rev_reverses_the_bytes_of_a_word() {
    let mut executor = v7_executor();
    set_register(&mut executor, "R1", 0x1234_5678);
    run(&mut executor, V7Operation::Rev { rd: Register::R0, rm: Register::R1 });
    assert_eq!(register(&mut executor, "R0"), 0x7856_3412);
    run(&mut executor, V7Operation::Rev16 { rd: Register::R0, rm: Register::R1 });
    assert_eq!(register(&mut executor, "R0"), 0x3412_7856);
}

#[test]
fn revsh_sign_extends_the_swapped_half_word() {
    let mut executor = v7_executor();
    set_register(&mut executor, "R1", 0x0000_12f0);
    run(&mut executor, V7Operation::Revsh { rd: Register::R0, rm: Register::R1 });
    assert_eq!(register(&mut executor, "R0"), 0xffff_f012);
}

#[test]
fn extensions_rotate_then_extend() {
    let mut executor = v7_executor();
    set_register(&mut executor, "R1", 0x1122_3344);
    run(&mut executor, V7Operation::Uxtb16 { rd: Some(Register::R0), rm: Register::R1, rotation: Some(8) });
    assert_eq!(register(&mut executor, "R0"), 0x0011_0033);
    set_register(&mut executor, "R1", 0x0000_0080);
    run(&mut executor, V7Operation::Sxtb { rd: Register::R0, rm: Register::R1, rotation: None });
    assert_eq!(register(&mut executor, "R0"), 0xffff_ff80);
    set_register(&mut executor, "R1", 0x8000_0001);
    set_register(&mut executor, "R2", 10);
    run(&mut executor, V7Operation::Uxtah { rd: Some(Register::R0), rn: Register::R2, rm: Register::R1, rotation: None });
    assert_eq!(register(&mut executor, "R0"), 11);
}

#[test]
fn ubfx_extracts_an_unsigned_field() {
    let mut executor = v7_executor();
    set_register(&mut executor, "R1", 0xabcd_1234);
    run(&mut executor, V7Operation::Ubfx { rd: Register::R0, rn: Register::R1, lsb: 8, width: 8 });
    assert_eq!(register(&mut executor, "R0"), 0x12);
}

#[test]
fn multiplications_and_divisions() {
    let mut executor = v7_executor();
    set_register(&mut executor, "R1", 3);
    set_register(&mut executor, "R2", 4);
    set_register(&mut executor, "R3", 5);
    run(&mut executor, V7Operation::Mla { rd: Register::R0, rn: Register::R1, rm: Register::R2, ra: Register::R3 });
    assert_eq!(register(&mut executor, "R0"), 17);
    run(&mut executor, V7Operation::Mls { rd: Register::R0, rn: Register::R1, rm: Register::R2, ra: Register::R3 });
    assert_eq!(register(&mut executor, "R0"), 0xffff_fff9);
    set_register(&mut executor, "R1", 17);
    run(&mut executor, V7Operation::Udiv { rd: Some(Register::R0), rn: Register::R1, rm: Register::R3 });
    assert_eq!(register(&mut executor, "R0"), 3);
    set_register(&mut executor, "R1", (-17i32) as u32);
    run(&mut executor, V7Operation::Sdiv { rd: Some(Register::R0), rn: Register::R1, rm: Register::R3 });
    assert_eq!(register(&mut executor, "R0"), (-3i32) as u32 as u64);
}

#[test]
fn umull_gives_the_whole_product() {
    let mut executor = v7_executor();
    set_register(&mut executor, "R2", 0xffff_ffff);
    set_register(&mut executor, "R3", 2);
    run(&mut executor, V7Operation::Umull { rdlo: Register::R0, rdhi: Register::R1, rn: Register::R2, rm: Register::R3 });
    assert_eq!(register(&mut executor, "R0"), 0xffff_fffe);
    assert_eq!(register(&mut executor, "R1"), 1);
}

#[test]
fn clz_counts_the_leading_zeroes() {
    let mut executor = v7_executor();
    set_register(&mut executor, "R1", 0x00f0_0000);
    run(&mut executor, V7Operation::Clz { rd: Register::R0, rm: Register::R1 });
    assert_eq!(register(&mut executor, "R0"), 8);
}

#[test]
fn store_multiple_then_load_multiple() {
    let mut executor = v7_executor();
    set_register(&mut executor, "R0", 0x2000_0000);
    set_register(&mut executor, "R4", 4);
    set_register(&mut executor, "R5", 5);
    set_register(&mut executor, "R6", 6);
    run(&mut executor, V7Operation::Stm { w: Some(true), rn: Register::R0, registers: vec![Register::R4, Register::R5, Register::R6] });
    assert_eq!(register(&mut executor, "R0"), 0x2000_000c);
    assert_eq!(address(&mut executor, 0x2000_0004, 32), 5);
    run(&mut executor, V7Operation::Ldmdb { w: Some(true), rn: Register::R0, registers: vec![Register::R1, Register::R2, Register::R3] });
    assert_eq!(register(&mut executor, "R0"), 0x2000_0000);
    assert_eq!(register(&mut executor, "R1"), 4);
    assert_eq!(register(&mut executor, "R2"), 5);
    assert_eq!(register(&mut executor, "R3"), 6);
}

#[test]
fn cbz_branches_on_a_zero_register_and_keeps_the_zero_flag() {
    let mut executor = v7_executor();
    set_register(&mut executor, "PC", 0x100);
    set_register(&mut executor, "R0", 0);
    set_flag(&mut executor, "Z", 0);
    let instruction = Instruction {
        operations: (16, V7Operation::Cbz { non: None, rn: Register::R0, imm: 8 }).convert(false),
        instruction_size: 16,
        max_cycle: CycleCount::Value(0),
    };
    executor.execute_instruction(&instruction).expect("Malformed instruction");
    assert_eq!(register(&mut executor, "PC"), 0x10c);
    assert_eq!(flag(&mut executor, "Z"), 0);
}

#[test]
fn an_it_block_queues_its_conditions() {
    let ops = (16, V7Operation::It { conds: vec![ArmCondition::EQ, ArmCondition::NE] }).convert(false);
    assert_eq!(ops.len(), 1);
    assert!(matches!(&ops[0], Operation::ConditionalExecution { conditions } if *conditions == vec![Condition::EQ, Condition::NE]));
}

#[test]
fn operations_without_a_translation_are_refused() {
    assert_eq!(try_convert(32, &V7Operation::Wfi, false).err(), Some(untranslated()));
    assert_eq!(try_convert(32, &V7Operation::Bfc { rd: Register::R0, lsb: 4, msb: 3 }, false).err(), Some(untranslated()));
    let push_pc = V7Operation::Push { registers: vec![Register::R4, Register::PC] };
    assert_eq!(try_convert(16, &push_pc, false).err(), Some(untranslated()));
    // the carry of a rotation has no translation
    let rotate = ImmShift { shift_n: 1, shift_t: Shift::Rrx };
    let flags = V7Operation::EorRegister { s: Some(SetFlags::Literal(true)), rd: None, rn: Register::R0, rm: Register::R1, shift: Some(rotate) };
    assert_eq!(try_convert(32, &flags, false).err(), Some(untranslated()));
    let no_flags = V7Operation::EorRegister { s: Some(SetFlags::Literal(false)), rd: None, rn: Register::R0, rm: Register::R1, shift: Some(rotate) };
    assert!(try_convert(32, &no_flags, false).is_ok());
}

#[test]
fn set_flags_follow_the_it_block() {
    // InITBlock(false) sets the flags outside an IT block only
    let mut executor = v7_executor();
    set_register(&mut executor, "R1", 0);
    set_flag(&mut executor, "Z", 0);
    let and = |s| V7Operation::AndRegister { s: Some(SetFlags::InITBlock(s)), rd: Some(Register::R0), rn: Register::R1, rm: Register::R1, shift: None };
    let inside = Instruction {
        operations: (32, and(false)).convert(true),
        instruction_size: 32,
        max_cycle: CycleCount::Value(0),
    };
    executor.execute_instruction(&inside).expect("Malformed instruction");
    assert_eq!(flag(&mut executor, "Z"), 0);
    run(&mut executor, and(false));
    assert_eq!(flag(&mut executor, "Z"), 1);
}
