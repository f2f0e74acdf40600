use symex::arch::arm::isa::ArmIsa;
use symex::arch::arm::registers::{ArmCondition, Register};
use symex::arch::arm::v7::decoder::{try_convert, Convert};
use symex::arch::arm::v7::operation::{ImmShift, SetFlags, V7Operation};
use symex::general_assembly::operand::{DataWord, Operand};
use symex::general_assembly::operation::Operation;
use symex::general_assembly::shift::Shift;
use symex::smt::expr::DContext;
use symex::smt::solver::DSolver;
use symex::symex::ga_executor::GAExecutor;
use symex::symex::instruction::{CycleCount, Instruction};
use symex::symex::named::NamedExprs;
use symex::symex::project::Project;
use symex::symex::state::GAState;
use symex::symex::types::{Endianness, WordSize};

/// An executor on an empty ARMv7-M project, with the program counter at zero
/// and the stack at the top of the address space.
fn v7_executor() -> GAExecutor<'static> {
    let project: &'static Project = Box::leak(Box::new(Project::from_parts(
        vec![],
        0,
        0,
        WordSize::Bit32,
        Endianness::Little,
        ArmIsa::ArmV7EM,
        vec![],
        &vec![],
        vec![],
    )));
    let ctx = DContext::new();
    let solver = DSolver::new(&ctx);
    let state = GAState::create_test_state(project, &ctx, solver, 0, u32::MAX as u64);
    GAExecutor::from_state(state, project)
}

fn store(executor: &mut GAExecutor<'static>, destination: Operand, value: u32) {
    let operation = Operation::Move { destination, source: Operand::Immediate(DataWord::Word32(value)) };
    executor.execute_operation(&operation, &mut NamedExprs::new()).expect("Malformed test");
}

fn set_register(executor: &mut GAExecutor<'static>, name: &str, value: u32) {
    store(executor, Operand::Register(name.to_owned()), value);
}

fn set_flag(executor: &mut GAExecutor<'static>, name: &str, value: u32) {
    store(executor, Operand::Flag(name.to_owned()), value);
}

fn set_address(executor: &mut GAExecutor<'static>, address: u32, width: u32, value: u32) {
    store(executor, Operand::Address(DataWord::Word32(address), width), value);
}

fn load(executor: &mut GAExecutor<'static>, operand: Operand) -> u64 {
    executor
        .get_operand_value(&operand, &NamedExprs::new())
        .expect("Could not find a test specified operand")
        .get_constant()
        .expect("Could not get test specified operand as constant")
}

fn register(executor: &mut GAExecutor<'static>, name: &str) -> u64 {
    load(executor, Operand::Register(name.to_owned()))
}

fn flag(executor: &mut GAExecutor<'static>, name: &str) -> u64 {
    load(executor, Operand::Flag(name.to_owned()))
}

fn address(executor: &mut GAExecutor<'static>, address: u32, width: u32) -> u64 {
    load(executor, Operand::Address(DataWord::Word32(address), width))
}

#[test]
fn test_adc_no_set_flag() {
    let mut executor = v7_executor();

    set_register(&mut executor, "R0", 1);
    set_register(&mut executor, "R1", 2);
    set_register(&mut executor, "R2", 3);
    set_flag(&mut executor, "C", true as u32);

    let instruction: V7Operation = V7Operation::AdcRegister { s: Some(SetFlags::Literal(false)), rd: Some(Register::R1), rn: Register::R1, rm: Register::R2, shift: None };

    let instruction = Instruction {
        operations: (16, instruction).convert(false),
        instruction_size: 16,
        max_cycle: CycleCount::Value(0),
    };
    executor
        .execute_instruction(&instruction)
        .expect("Malformed instruction");

    assert!(register(&mut executor, "R1") == 6, "R1 == 6");
    assert!(flag(&mut executor, "C") == 1, "C == 1");
}

#[test]
fn test_adc_set_flag() {
    let mut executor = v7_executor();

    set_register(&mut executor, "R0", 1);
    set_register(&mut executor, "R1", 2);
    set_register(&mut executor, "R2", 3);
    set_flag(&mut executor, "C", true as u32);

    let instruction: V7Operation = V7Operation::AdcRegister { s: Some(SetFlags::Literal(true)), rd: None, rn: Register::R1, rm: Register::R2, shift: None };

    let instruction = Instruction {
        operations: (16, instruction).convert(false),
        instruction_size: 16,
        max_cycle: CycleCount::Value(0),
    };
    executor
        .execute_instruction(&instruction)
        .expect("Malformed instruction");

    assert!(register(&mut executor, "R1") == 6, "R1 == 6");
    assert!(flag(&mut executor, "C") == 0, "C == 0");

    set_register(&mut executor, "R0", 1);
    set_register(&mut executor, "R1", 0x80000000);
    set_register(&mut executor, "R2", 0x80000000);
    set_flag(&mut executor, "C", false as u32);

    let instruction: V7Operation = V7Operation::AdcRegister { s: Some(SetFlags::Literal(true)), rd: Some(Register::R1), rn: Register::R1, rm: Register::R2, shift: None };

    let instruction = Instruction {
        operations: (16, instruction).convert(false),
        instruction_size: 16,
        max_cycle: CycleCount::Value(0),
    };
    executor
        .execute_instruction(&instruction)
        .expect("Malformed instruction");

    assert!(register(&mut executor, "R1") == 0, "R1 == 0");
    assert!(flag(&mut executor, "C") == 1, "C == 1");
    assert!(flag(&mut executor, "Z") == 1, "Z == 1");
    assert!(flag(&mut executor, "V") == 1, "V == 1");

    set_register(&mut executor, "R0", 1);
    set_register(&mut executor, "R1", 0x80000000);
    set_register(&mut executor, "R2", 0x80000000);
    set_flag(&mut executor, "C", false as u32);
    set_flag(&mut executor, "V", false as u32);
    set_flag(&mut executor, "Z", false as u32);

    let instruction: V7Operation = V7Operation::AdcRegister { s: Some(SetFlags::InITBlock(true)), rd: Some(Register::R1), rn: Register::R1, rm: Register::R2, shift: None };

    let instruction = Instruction {
        operations: (16, instruction).convert(true),
        instruction_size: 16,
        max_cycle: CycleCount::Value(0),
    };
    executor
        .execute_instruction(&instruction)
        .expect("Malformed instruction");

    assert!(register(&mut executor, "R1") == 0, "R1 == 0");
    assert!(flag(&mut executor, "C") == 1, "C == 1");
    assert!(flag(&mut executor, "Z") == 1, "Z == 1");
    assert!(flag(&mut executor, "V") == 1, "V == 1");

    set_register(&mut executor, "R0", 1);
    set_register(&mut executor, "R1", 0x80000000);
    set_register(&mut executor, "R2", 0x80000000);
    set_flag(&mut executor, "C", false as u32);
    set_flag(&mut executor, "V", false as u32);
    set_flag(&mut executor, "Z", false as u32);

    let instruction: V7Operation = V7Operation::AdcRegister { s: Some(SetFlags::InITBlock(false)), rd: Some(Register::R1), rn: Register::R1, rm: Register::R2, shift: None };

    let instruction = Instruction {
        operations: (16, instruction).convert(true),
        instruction_size: 16,
        max_cycle: CycleCount::Value(0),
    };
    executor
        .execute_instruction(&instruction)
        .expect("Malformed instruction");

    assert!(register(&mut executor, "R1") == 0, "R1 == 0");
    assert!(flag(&mut executor, "C") == 0, "C == 0");
    assert!(flag(&mut executor, "Z") == 0, "Z == 0");
    assert!(flag(&mut executor, "V") == 0, "V == 0");
}

#[test]
fn test_adc_imm_no_set_flag() {
    let mut executor = v7_executor();

    set_register(&mut executor, "R1", 2);
    set_flag(&mut executor, "C", true as u32);

    let instruction: V7Operation = V7Operation::AdcImmediate { s: Some(false), rd: Some(Register::R1), rn: Register::R1, imm: 3 };

    let instruction = Instruction {
        operations: (16, instruction).convert(false),
        instruction_size: 16,
        max_cycle: CycleCount::Value(0),
    };
    executor
        .execute_instruction(&instruction)
        .expect("Malformed instruction");

    assert!(register(&mut executor, "R1") == 6, "R1 == 6");
    assert!(flag(&mut executor, "C") == 1, "C == 1");
}

#[test]
fn test_adc_immediate_set_flag() {
    let mut executor = v7_executor();

    set_register(&mut executor, "R0", 1);
    set_register(&mut executor, "R1", 2);
    set_register(&mut executor, "R2", 3);
    set_flag(&mut executor, "C", true as u32);

    let instruction: V7Operation = V7Operation::AdcImmediate { s: Some(true), rd: None, rn: Register::R1, imm: 3 };

    let instruction = Instruction {
        operations: (16, instruction).convert(false),
        instruction_size: 16,
        max_cycle: CycleCount::Value(0),
    };
    executor
        .execute_instruction(&instruction)
        .expect("Malformed instruction");

    assert!(register(&mut executor, "R1") == 6, "R1 == 6");
    assert!(flag(&mut executor, "C") == 0, "C == 0");

    set_register(&mut executor, "R0", 1);
    set_register(&mut executor, "R1", 0x80000000);
    set_flag(&mut executor, "C", false as u32);

    let instruction: V7Operation = V7Operation::AdcImmediate { s: Some(true), rd: Some(Register::R1), rn: Register::R1, imm: 0x80000000 };

    let instruction = Instruction {
        operations: (16, instruction).convert(false),
        instruction_size: 16,
        max_cycle: CycleCount::Value(0),
    };
    executor
        .execute_instruction(&instruction)
        .expect("Malformed instruction");

    assert!(register(&mut executor, "R1") == 0, "R1 == 0");
    assert!(flag(&mut executor, "C") == 1, "C == 1");
    assert!(flag(&mut executor, "Z") == 1, "Z == 1");
    assert!(flag(&mut executor, "V") == 1, "V == 1");
}

#[test]
fn test_add_no_set_flag() {
    let mut executor = v7_executor();

    set_register(&mut executor, "R0", 1);
    set_register(&mut executor, "R1", 2);
    set_register(&mut executor, "R2", 3);
    set_flag(&mut executor, "C", true as u32);

    let instruction: V7Operation = V7Operation::AddRegister { s: Some(SetFlags::Literal(false)), rd: Some(Register::R1), rn: Register::R1, rm: Register::R2, shift: None };

    let instruction = Instruction {
        operations: (16, instruction).convert(false),
        instruction_size: 16,
        max_cycle: CycleCount::Value(0),
    };
    executor
        .execute_instruction(&instruction)
        .expect("Malformed instruction");

    assert!(register(&mut executor, "R1") == 5, "R1 == 5");
    assert!(flag(&mut executor, "C") == 1, "C == 1");
}

#[test]
fn test_add_set_flag() {
    let mut executor = v7_executor();

    set_register(&mut executor, "R0", 1);
    set_register(&mut executor, "R1", 2);
    set_register(&mut executor, "R2", 3);
    set_flag(&mut executor, "C", true as u32);

    let instruction: V7Operation = V7Operation::AddRegister { s: Some(SetFlags::Literal(true)), rd: None, rn: Register::R1, rm: Register::R2, shift: None };

    let instruction = Instruction {
        operations: (16, instruction).convert(false),
        instruction_size: 16,
        max_cycle: CycleCount::Value(0),
    };
    executor
        .execute_instruction(&instruction)
        .expect("Malformed instruction");

    assert!(register(&mut executor, "R1") == 5, "R1 == 5");
    assert!(flag(&mut executor, "C") == 0, "C == 0");

    set_register(&mut executor, "R0", 1);
    set_register(&mut executor, "R1", 0x80000000);
    set_register(&mut executor, "R2", 0x80000000);
    set_flag(&mut executor, "C", false as u32);

    let instruction: V7Operation = V7Operation::AddRegister { s: Some(SetFlags::Literal(true)), rd: Some(Register::R1), rn: Register::R1, rm: Register::R2, shift: None };

    let instruction = Instruction {
        operations: (16, instruction).convert(false),
        instruction_size: 16,
        max_cycle: CycleCount::Value(0),
    };
    executor
        .execute_instruction(&instruction)
        .expect("Malformed instruction");

    assert!(register(&mut executor, "R1") == 0, "R1 == 0");
    assert!(flag(&mut executor, "C") == 1, "C == 1");
    assert!(flag(&mut executor, "Z") == 1, "Z == 1");
    assert!(flag(&mut executor, "V") == 1, "V == 1");

    set_register(&mut executor, "R0", 1);
    set_register(&mut executor, "R1", 0x80000000);
    set_register(&mut executor, "R2", 0x80000000);
    set_flag(&mut executor, "C", true as u32);
    set_flag(&mut executor, "V", false as u32);
    set_flag(&mut executor, "Z", false as u32);

    let instruction: V7Operation = V7Operation::AddRegister { s: Some(SetFlags::InITBlock(true)), rd: Some(Register::R1), rn: Register::R1, rm: Register::R2, shift: None };

    let instruction = Instruction {
        operations: (16, instruction).convert(true),
        instruction_size: 16,
        max_cycle: CycleCount::Value(0),
    };
    executor
        .execute_instruction(&instruction)
        .expect("Malformed instruction");

    assert!(register(&mut executor, "R1") == 0, "R1 == 0");
    assert!(flag(&mut executor, "C") == 1, "C == 1");
    assert!(flag(&mut executor, "Z") == 1, "Z == 1");
    assert!(flag(&mut executor, "V") == 1, "V == 1");

    set_register(&mut executor, "R0", 1);
    set_register(&mut executor, "R1", 0x80000000);
    set_register(&mut executor, "R2", 0x80000000);
    set_flag(&mut executor, "C", false as u32);
    set_flag(&mut executor, "V", false as u32);
    set_flag(&mut executor, "Z", false as u32);

    let instruction: V7Operation = V7Operation::AddRegister { s: Some(SetFlags::InITBlock(false)), rd: Some(Register::R1), rn: Register::R1, rm: Register::R2, shift: None };

    let instruction = Instruction {
        operations: (16, instruction).convert(true),
        instruction_size: 16,
        max_cycle: CycleCount::Value(0),
    };
    executor
        .execute_instruction(&instruction)
        .expect("Malformed instruction");

    assert!(register(&mut executor, "R1") == 0, "R1 == 0");
    assert!(flag(&mut executor, "C") == 0, "C == 0");
    assert!(flag(&mut executor, "Z") == 0, "Z == 0");
    assert!(flag(&mut executor, "V") == 0, "V == 0");
}

#[test]
fn test_add_imm_no_set_flag() {
    let mut executor = v7_executor();

    set_register(&mut executor, "R1", 2);
    set_flag(&mut executor, "C", true as u32);

    let instruction: V7Operation = V7Operation::AdcImmediate { s: Some(false), rd: None, rn: Register::R1, imm: 3 };

    let instruction = Instruction {
        operations: (16, instruction).convert(false),
        instruction_size: 16,
        max_cycle: CycleCount::Value(0),
    };
    executor
        .execute_instruction(&instruction)
        .expect("Malformed instruction");

    assert!(register(&mut executor, "R1") == 6, "R1 == 6");
    assert!(flag(&mut executor, "C") == 1, "C == 1");
}

#[test]
fn test_add_immediate_set_flag() {
    let mut executor = v7_executor();

    set_register(&mut executor, "R0", 1);
    set_register(&mut executor, "R1", 2);
    set_register(&mut executor, "R2", 3);
    set_flag(&mut executor, "C", true as u32);

    let instruction: V7Operation = V7Operation::AdcImmediate { s: Some(true), rd: Some(Register::R1), rn: Register::R1, imm: 3 };

    let instruction = Instruction {
        operations: (16, instruction).convert(false),
        instruction_size: 16,
        max_cycle: CycleCount::Value(0),
    };
    executor
        .execute_instruction(&instruction)
        .expect("Malformed instruction");

    assert!(register(&mut executor, "R1") == 6, "R1 == 6");
    assert!(flag(&mut executor, "C") == 0, "C == 0");

    set_register(&mut executor, "R0", 1);
    set_register(&mut executor, "R1", 0x80000000);
    set_flag(&mut executor, "C", false as u32);

    let instruction: V7Operation = V7Operation::AdcImmediate { s: Some(true), rd: None, rn: Register::R1, imm: 0x80000000 };

    let instruction = Instruction {
        operations: (16, instruction).convert(false),
        instruction_size: 16,
        max_cycle: CycleCount::Value(0),
    };
    executor
        .execute_instruction(&instruction)
        .expect("Malformed instruction");

    assert!(register(&mut executor, "R1") == 0, "R1 == 0");
    assert!(flag(&mut executor, "C") == 1, "C == 1");
    assert!(flag(&mut executor, "Z") == 1, "Z == 1");
    assert!(flag(&mut executor, "V") == 1, "V == 1");
}

#[test]
fn test_add_sp_immediate() {
    let mut executor = v7_executor();

    set_register(&mut executor, "R1", 8);
    set_register(&mut executor, "SP", 8);
    set_flag(&mut executor, "C", true as u32);

    let instruction: V7Operation = V7Operation::AddSPImmediate { s: Some(true), rd: None, imm: 16 };

    let instruction = Instruction {
        operations: (16, instruction).convert(false),
        instruction_size: 16,
        max_cycle: CycleCount::Value(0),
    };
    executor
        .execute_instruction(&instruction)
        .expect("Malformed instruction");

    assert!(register(&mut executor, "SP") == 24, "SP == 24");
    assert!(flag(&mut executor, "C") == 0, "C == 0");

    set_register(&mut executor, "R1", 8);
    set_register(&mut executor, "SP", 9);
    set_flag(&mut executor, "C", true as u32);

    let instruction: V7Operation = V7Operation::AddSPImmediate { s: Some(false), rd: Some(Register::SP), imm: 16 };

    let instruction = Instruction {
        operations: (16, instruction).convert(false),
        instruction_size: 16,
        max_cycle: CycleCount::Value(0),
    };
    executor
        .execute_instruction(&instruction)
        .expect("Malformed instruction");

    assert!(register(&mut executor, "SP") == 24, "SP == 24");
    assert!(flag(&mut executor, "C") == 1, "C == 1");

    set_register(&mut executor, "R1", 8);
    set_register(&mut executor, "SP", 9);
    set_flag(&mut executor, "C", true as u32);

    let instruction: V7Operation = V7Operation::AddSPImmediate { s: Some(false), rd: Some(Register::R1), imm: 16 };

    let instruction = Instruction {
        operations: (16, instruction).convert(false),
        instruction_size: 16,
        max_cycle: CycleCount::Value(0),
    };
    executor
        .execute_instruction(&instruction)
        .expect("Malformed instruction");

    assert!(register(&mut executor, "R1") == 24, "R1 == 24");
    assert!(flag(&mut executor, "C") == 1, "C == 1");
}

#[test]
fn test_add_sp_reg() {
    let mut executor = v7_executor();

    set_register(&mut executor, "R1", 16);
    set_register(&mut executor, "SP", 8);
    set_flag(&mut executor, "C", true as u32);

    let instruction: V7Operation = V7Operation::AddSPRegister { s: Some(true), rd: Some(Register::SP), rm: Register::R1, shift: None };

    let instruction = Instruction {
        operations: (16, instruction).convert(false),
        instruction_size: 16,
        max_cycle: CycleCount::Value(0),
    };
    executor
        .execute_instruction(&instruction)
        .expect("Malformed instruction");

    assert!(register(&mut executor, "SP") == 24, "SP == 24");
    assert!(flag(&mut executor, "C") == 0, "C == 0");

    set_register(&mut executor, "R1", 16);
    set_register(&mut executor, "SP", 9);
    set_flag(&mut executor, "C", true as u32);

    let instruction: V7Operation = V7Operation::AddSPRegister { s: Some(false), rd: Some(Register::SP), rm: Register::R1, shift: None };

    let instruction = Instruction {
        operations: (16, instruction).convert(false),
        instruction_size: 16,
        max_cycle: CycleCount::Value(0),
    };
    executor
        .execute_instruction(&instruction)
        .expect("Malformed instruction");

    assert!(register(&mut executor, "SP") == 24, "SP == 24");
    assert!(flag(&mut executor, "C") == 1, "C == 1");

    set_register(&mut executor, "R1", 8);
    set_register(&mut executor, "SP", 9);
    set_flag(&mut executor, "C", true as u32);

    let instruction: V7Operation = V7Operation::AddSPRegister { s: Some(false), rd: Some(Register::SP), rm: Register::R1, shift: Some(ImmShift {
            shift_n: 1,
            shift_t: Shift::Lsl,
        }) };

    let instruction = Instruction {
        operations: (16, instruction).convert(false),
        instruction_size: 16,
        max_cycle: CycleCount::Value(0),
    };
    executor
        .execute_instruction(&instruction)
        .expect("Malformed instruction");

    assert!(register(&mut executor, "SP") == 24, "SP == 24");
    assert!(flag(&mut executor, "C") == 1, "C == 1");
}

#[test]
fn test_adr() {
    let mut executor = v7_executor();

    set_register(&mut executor, "PC", 16);
    set_flag(&mut executor, "C", true as u32);

    let instruction: V7Operation = V7Operation::Adr { rd: Register::PC, add: true, imm: 4 };

    let instruction = Instruction {
        operations: (16, instruction).convert(false),
        instruction_size: 16,
        max_cycle: CycleCount::Value(0),
    };
    executor
        .execute_instruction(&instruction)
        .expect("Malformed instruction");

    assert!(register(&mut executor, "PC") == 24, "PC == 24");

    set_register(&mut executor, "PC", 16);
    set_flag(&mut executor, "C", true as u32);

    let instruction: V7Operation = V7Operation::Adr { rd: Register::PC, add: false, imm: 4 };

    let instruction = Instruction {
        operations: (16, instruction).convert(false),
        instruction_size: 16,
        max_cycle: CycleCount::Value(0),
    };
    executor
        .execute_instruction(&instruction)
        .expect("Malformed instruction");

    assert!(register(&mut executor, "PC") == 16, "PC == 16");

    set_register(&mut executor, "R0", 16);
    set_flag(&mut executor, "C", true as u32);

    let instruction: V7Operation = V7Operation::Adr { rd: Register::R0, add: false, imm: 4 };

    let instruction = Instruction {
        operations: (16, instruction).convert(false),
        instruction_size: 16,
        max_cycle: CycleCount::Value(0),
    };
    executor
        .execute_instruction(&instruction)
        .expect("Malformed instruction");

    assert!(register(&mut executor, "R0") == 16, "R0 == 16");
}

#[test]
fn test_and_no_set_flag() {
    let mut executor = v7_executor();

    set_register(&mut executor, "R0", 1);
    set_register(&mut executor, "R1", 0x00000002);
    set_register(&mut executor, "R2", 0x80000001);
    set_flag(&mut executor, "C", true as u32);

    let instruction: V7Operation = V7Operation::AndRegister { s: Some(SetFlags::Literal(false)), rd: Some(Register::R1), rn: Register::R1, rm: Register::R2, shift: Some(ImmShift {
            shift_n: 1,
            shift_t: Shift::Lsl,
        }) };

    let instruction = Instruction {
        operations: (16, instruction).convert(false),
        instruction_size: 16,
        max_cycle: CycleCount::Value(0),
    };
    executor
        .execute_instruction(&instruction)
        .expect("Malformed instruction");

    assert!(register(&mut executor, "R1") == 0b10, "R1 == 0b10");
    assert!(flag(&mut executor, "C") == 1, "C == 1");
}

#[test]
fn test_and_set_flag() {
    let mut executor = v7_executor();

    set_register(&mut executor, "R0", 1);
    set_register(&mut executor, "R1", 0x00000002);
    set_register(&mut executor, "R2", 0x80000001);
    set_flag(&mut executor, "C", false as u32);

    let instruction: V7Operation = V7Operation::AndRegister { s: Some(SetFlags::Literal(true)), rd: None, rn: Register::R1, rm: Register::R2, shift: Some(ImmShift {
            shift_n: 1,
            shift_t: Shift::Lsl,
        }) };

    let instruction = Instruction {
        operations: (16, instruction).convert(false),
        instruction_size: 16,
        max_cycle: CycleCount::Value(0),
    };
    executor
        .execute_instruction(&instruction)
        .expect("Malformed instruction");

    assert!(register(&mut executor, "R1") == 0b10, "R1 == 0b10");
    assert!(flag(&mut executor, "C") == 1, "C == 1");

    set_register(&mut executor, "R0", 1);
    set_register(&mut executor, "R1", 0x00000002);
    set_register(&mut executor, "R2", 0x80000002);
    set_flag(&mut executor, "C", false as u32);

    let instruction: V7Operation = V7Operation::AndRegister { s: Some(SetFlags::Literal(true)), rd: Some(Register::R1), rn: Register::R1, rm: Register::R2, shift: Some(ImmShift {
            shift_n: 1,
            shift_t: Shift::Lsl,
        }) };

    let instruction = Instruction {
        operations: (16, instruction).convert(false),
        instruction_size: 16,
        max_cycle: CycleCount::Value(0),
    };
    executor
        .execute_instruction(&instruction)
        .expect("Malformed instruction");

    assert!(register(&mut executor, "R1") == 0b00, "R1 == 0b00");
    assert!(flag(&mut executor, "C") == 1, "C == 1");
    assert!(flag(&mut executor, "Z") == 1, "Z == 1");
    assert!(flag(&mut executor, "N") == 0, "N == 0");

    set_register(&mut executor, "R0", 1);
    set_register(&mut executor, "R1", 0x00000002);
    set_register(&mut executor, "R2", 0x80000002);
    set_flag(&mut executor, "C", 0);
    set_flag(&mut executor, "Z", 0);
    set_flag(&mut executor, "N", 0);

    let instruction: V7Operation = V7Operation::AndRegister { s: Some(SetFlags::InITBlock(true)), rd: Some(Register::R1), rn: Register::R1, rm: Register::R2, shift: Some(ImmShift {
            shift_n: 1,
            shift_t: Shift::Lsl,
        }) };

    let instruction = Instruction {
        operations: (16, instruction).convert(true),
        instruction_size: 16,
        max_cycle: CycleCount::Value(0),
    };
    executor
        .execute_instruction(&instruction)
        .expect("Malformed instruction");

    assert!(register(&mut executor, "R1") == 0b00, "R1 == 0b00");
    assert!(flag(&mut executor, "C") == 1, "C == 1");
    assert!(flag(&mut executor, "Z") == 1, "Z == 1");
    assert!(flag(&mut executor, "N") == 0, "N == 0");

    set_register(&mut executor, "R0", 1);
    set_register(&mut executor, "R1", 0x00000002);
    set_register(&mut executor, "R2", 0x80000002);
    set_flag(&mut executor, "C", 0);
    set_flag(&mut executor, "Z", 0);
    set_flag(&mut executor, "N", 0);

    let instruction: V7Operation = V7Operation::AndRegister { s: Some(SetFlags::InITBlock(false)), rd: Some(Register::R1), rn: Register::R1, rm: Register::R2, shift: Some(ImmShift {
            shift_n: 1,
            shift_t: Shift::Lsl,
        }) };

    let instruction = Instruction {
        operations: (16, instruction).convert(false),
        instruction_size: 16,
        max_cycle: CycleCount::Value(0),
    };
    executor
        .execute_instruction(&instruction)
        .expect("Malformed instruction");

    assert!(register(&mut executor, "R1") == 0b00, "R1 == 0b00");
    assert!(flag(&mut executor, "C") == 1, "C == 1");
    assert!(flag(&mut executor, "Z") == 1, "Z == 1");
    assert!(flag(&mut executor, "N") == 0, "N == 0");

    set_register(&mut executor, "R0", 1);
    set_register(&mut executor, "R1", 0x00000002);
    set_register(&mut executor, "R2", 0x80000002);
    set_flag(&mut executor, "C", 0);
    set_flag(&mut executor, "Z", 0);
    set_flag(&mut executor, "N", 0);

    let instruction: V7Operation = V7Operation::AndRegister { s: Some(SetFlags::InITBlock(false)), rd: None, rn: Register::R1, rm: Register::R2, shift: Some(ImmShift {
            shift_n: 1,
            shift_t: Shift::Lsl,
        }) };

    let instruction = Instruction {
        operations: (16, instruction).convert(false),
        instruction_size: 16,
        max_cycle: CycleCount::Value(0),
    };
    executor
        .execute_instruction(&instruction)
        .expect("Malformed instruction");

    assert!(register(&mut executor, "R1") == 0b00, "R1 == 0b00");
    assert!(flag(&mut executor, "C") == 1, "C == 1");
    assert!(flag(&mut executor, "Z") == 1, "Z == 1");
    assert!(flag(&mut executor, "N") == 0, "N == 0");
}

#[test]
fn test_and_imm_no_set_flag() {
    let mut executor = v7_executor();

    set_register(&mut executor, "R1", 2);
    set_flag(&mut executor, "C", true as u32);

    let instruction: V7Operation = V7Operation::AdcImmediate { s: Some(false), rd: Some(Register::R1), rn: Register::R1, imm: 3 };

    let instruction = Instruction {
        operations: (16, instruction).convert(false),
        instruction_size: 16,
        max_cycle: CycleCount::Value(0),
    };
    executor
        .execute_instruction(&instruction)
        .expect("Malformed instruction");

    assert!(register(&mut executor, "R1") == 6, "R1 == 6");
    assert!(flag(&mut executor, "C") == 1, "C == 1");
}

#[test]
fn test_and_immediate_set_flag() {
    let mut executor = v7_executor();

    set_register(&mut executor, "R1", 0x00000002);
    set_flag(&mut executor, "C", false as u32);

    let instruction: V7Operation = V7Operation::AndImmediate { s: Some(true), rd: Some(Register::R1), rn: Register::R1, imm: 0x00000002, carry: Some(true) };

    let instruction = Instruction {
        operations: (16, instruction).convert(false),
        instruction_size: 16,
        max_cycle: CycleCount::Value(0),
    };

    executor
        .execute_instruction(&instruction)
        .expect("Malformed instruction");

    assert!(register(&mut executor, "R1") == 0b10, "R1 == 0b10");
    assert!(flag(&mut executor, "C") == 1, "C == 1");

    set_register(&mut executor, "R1", 0x00000002);
    set_flag(&mut executor, "C", false as u32);

    let instruction: V7Operation = V7Operation::AndImmediate { s: Some(true), rd: Some(Register::R1), rn: Register::R1, imm: 0x00000002, carry: Some(false) };

    let instruction = Instruction {
        operations: (16, instruction).convert(false),
        instruction_size: 16,
        max_cycle: CycleCount::Value(0),
    };

    executor
        .execute_instruction(&instruction)
        .expect("Malformed instruction");

    assert!(register(&mut executor, "R1") == 0b10, "R1 == 0b10");
    assert!(flag(&mut executor, "C") == 0, "C == 0");

    set_register(&mut executor, "R0", 1);
    set_register(&mut executor, "R1", 0x00000002);
    set_register(&mut executor, "R2", 0x80000002);
    set_flag(&mut executor, "C", 0);
    set_flag(&mut executor, "Z", 0);
    set_flag(&mut executor, "N", 0);

    set_register(&mut executor, "R1", 0x00000002);
    set_flag(&mut executor, "C", false as u32);

    let instruction: V7Operation = V7Operation::AndImmediate { s: Some(true), rd: Some(Register::R1), rn: Register::R1, imm: 0x00000000, carry: None };

    let instruction = Instruction {
        operations: (16, instruction).convert(false),
        instruction_size: 16,
        max_cycle: CycleCount::Value(0),
    };

    executor
        .execute_instruction(&instruction)
        .expect("Malformed instruction");

    assert!(register(&mut executor, "R1") == 0b00, "R1 == 0b00");
    assert!(flag(&mut executor, "C") == 0, "C == 0");

    set_register(&mut executor, "R1", 0x80000002);
    set_flag(&mut executor, "C", false as u32);

    let instruction: V7Operation = V7Operation::AndImmediate { s: Some(true), rd: Some(Register::R1), rn: Register::R1, imm: 0x80000000, carry: None };

    let instruction = Instruction {
        operations: (16, instruction).convert(false),
        instruction_size: 16,
        max_cycle: CycleCount::Value(0),
    };

    executor
        .execute_instruction(&instruction)
        .expect("Malformed instruction");

    assert!(register(&mut executor, "R1") == 0x80000000, "R1 == 0x80000000");
    assert!(flag(&mut executor, "C") == 0, "C == 0");
    assert!(flag(&mut executor, "N") == 1, "N == 1");
}

#[test]
fn test_asr_immediate() {
    let mut executor = v7_executor();

    set_register(&mut executor, "R1", 0x80000000);
    set_flag(&mut executor, "C", true as u32);

    let instruction: V7Operation = V7Operation::AsrImmediate { s: Some(SetFlags::Literal(false)), rd: Register::R1, rm: Register::R1, imm: 1 };

    let instruction = Instruction {
        operations: (16, instruction).convert(false),
        instruction_size: 16,
        max_cycle: CycleCount::Value(0),
    };
    executor
        .execute_instruction(&instruction)
        .expect("Malformed instruction");

    assert!(register(&mut executor, "R1") == 0xc0000000, "R1 == 0xc0000000");
    assert!(flag(&mut executor, "C") == 1, "C == 1");
}

#[test]
fn test_asr_immediate_set_flag() {
    let mut executor = v7_executor();

    set_register(&mut executor, "R1", 0x80000001);
    set_flag(&mut executor, "C", false as u32);
    set_flag(&mut executor, "Z", false as u32);
    set_flag(&mut executor, "N", false as u32);

    let instruction: V7Operation = V7Operation::AsrImmediate { s: Some(SetFlags::Literal(true)), rd: Register::R1, rm: Register::R1, imm: 1 };

    let instruction = Instruction {
        operations: (16, instruction).convert(false),
        instruction_size: 16,
        max_cycle: CycleCount::Value(0),
    };
    executor
        .execute_instruction(&instruction)
        .expect("Malformed instruction");

    assert!(register(&mut executor, "R1") == 0xc0000000, "R1 == 0xc0000000");
    assert!(flag(&mut executor, "C") == 1, "C == 1");
    assert!(flag(&mut executor, "N") == 1, "N == 1");

    set_register(&mut executor, "R1", 0x00000001);
    set_flag(&mut executor, "C", false as u32);
    set_flag(&mut executor, "Z", false as u32);
    set_flag(&mut executor, "N", false as u32);

    let instruction: V7Operation = V7Operation::AsrImmediate { s: Some(SetFlags::Literal(true)), rd: Register::R1, rm: Register::R1, imm: 1 };

    let instruction = Instruction {
        operations: (16, instruction).convert(false),
        instruction_size: 16,
        max_cycle: CycleCount::Value(0),
    };
    executor
        .execute_instruction(&instruction)
        .expect("Malformed instruction");

    assert!(register(&mut executor, "R1") == 0x00000000, "R1 == 0x00000000");
    assert!(flag(&mut executor, "C") == 1, "C == 1");
    assert!(flag(&mut executor, "Z") == 1, "Z == 1");

    set_register(&mut executor, "R1", 0x80000001);
    set_flag(&mut executor, "C", false as u32);
    set_flag(&mut executor, "Z", false as u32);
    set_flag(&mut executor, "N", false as u32);

    let instruction: V7Operation = V7Operation::AsrImmediate { s: Some(SetFlags::InITBlock(true)), rd: Register::R1, rm: Register::R1, imm: 1 };

    let instruction = Instruction {
        operations: (16, instruction).convert(true),
        instruction_size: 16,
        max_cycle: CycleCount::Value(0),
    };
    executor
        .execute_instruction(&instruction)
        .expect("Malformed instruction");

    assert!(register(&mut executor, "R1") == 0xc0000000, "R1 == 0xc0000000");
    assert!(flag(&mut executor, "C") == 1, "C == 1");
    assert!(flag(&mut executor, "N") == 1, "N == 1");

    set_register(&mut executor, "R1", 0x00000001);
    set_flag(&mut executor, "C", false as u32);
    set_flag(&mut executor, "Z", false as u32);
    set_flag(&mut executor, "N", false as u32);

    let instruction: V7Operation = V7Operation::AsrImmediate { s: Some(SetFlags::InITBlock(false)), rd: Register::R1, rm: Register::R1, imm: 1 };

    let instruction = Instruction {
        operations: (16, instruction).convert(false),
        instruction_size: 16,
        max_cycle: CycleCount::Value(0),
    };
    executor
        .execute_instruction(&instruction)
        .expect("Malformed instruction");

    assert!(register(&mut executor, "R1") == 0x00000000, "R1 == 0x00000000");
    assert!(flag(&mut executor, "C") == 1, "C == 1");
    assert!(flag(&mut executor, "Z") == 1, "Z == 1");
}

#[test]
fn test_asr() {
    let mut executor = v7_executor();

    set_register(&mut executor, "R1", 0x80000000);
    set_register(&mut executor, "R2", 1);
    set_flag(&mut executor, "C", true as u32);

    let instruction: V7Operation = V7Operation::AsrRegister { s: Some(SetFlags::Literal(false)), rd: Register::R1, rn: Register::R1, rm: Register::R2 };

    let instruction = Instruction {
        operations: (16, instruction).convert(false),
        instruction_size: 16,
        max_cycle: CycleCount::Value(0),
    };
    executor
        .execute_instruction(&instruction)
        .expect("Malformed instruction");

    assert!(register(&mut executor, "R1") == 0xc0000000, "R1 == 0xc0000000");
    assert!(flag(&mut executor, "C") == 1, "C == 1");
}

#[test]
fn test_asr_set_flag() {
    let mut executor = v7_executor();

    set_register(&mut executor, "R1", 0x80000001);
    set_register(&mut executor, "R2", 1);
    set_flag(&mut executor, "C", false as u32);
    set_flag(&mut executor, "Z", false as u32);
    set_flag(&mut executor, "N", false as u32);

    let instruction: V7Operation = V7Operation::AsrRegister { s: Some(SetFlags::Literal(true)), rd: Register::R1, rn: Register::R1, rm: Register::R2 };

    let instruction = Instruction {
        operations: (16, instruction).convert(false),
        instruction_size: 16,
        max_cycle: CycleCount::Value(0),
    };
    executor
        .execute_instruction(&instruction)
        .expect("Malformed instruction");

    assert!(register(&mut executor, "R1") == 0xc0000000, "R1 == 0xc0000000");
    assert!(flag(&mut executor, "C") == 1, "C == 1");
    assert!(flag(&mut executor, "N") == 1, "N == 1");

    set_register(&mut executor, "R1", 0x00000001);
    set_register(&mut executor, "R2", 1);
    set_flag(&mut executor, "C", false as u32);
    set_flag(&mut executor, "Z", false as u32);
    set_flag(&mut executor, "N", false as u32);

    let instruction: V7Operation = V7Operation::AsrRegister { s: Some(SetFlags::Literal(true)), rd: Register::R1, rn: Register::R1, rm: Register::R2 };

    let instruction = Instruction {
        operations: (16, instruction).convert(false),
        instruction_size: 16,
        max_cycle: CycleCount::Value(0),
    };
    executor
        .execute_instruction(&instruction)
        .expect("Malformed instruction");

    assert!(register(&mut executor, "R1") == 0x00000000, "R1 == 0x00000000");
    assert!(flag(&mut executor, "C") == 1, "C == 1");
    assert!(flag(&mut executor, "Z") == 1, "Z == 1");

    set_register(&mut executor, "R1", 0x80000001);
    set_register(&mut executor, "R2", 1);
    set_flag(&mut executor, "C", false as u32);
    set_flag(&mut executor, "Z", false as u32);
    set_flag(&mut executor, "N", false as u32);

    let instruction: V7Operation = V7Operation::AsrRegister { s: Some(SetFlags::InITBlock(true)), rd: Register::R1, rn: Register::R1, rm: Register::R2 };

    let instruction = Instruction {
        operations: (16, instruction).convert(true),
        instruction_size: 16,
        max_cycle: CycleCount::Value(0),
    };
    executor
        .execute_instruction(&instruction)
        .expect("Malformed instruction");

    assert!(register(&mut executor, "R1") == 0xc0000000, "R1 == 0xc0000000");
    assert!(flag(&mut executor, "C") == 1, "C == 1");
    assert!(flag(&mut executor, "N") == 1, "N == 1");

    set_register(&mut executor, "R1", 0x00000001);
    set_register(&mut executor, "R2", 1);
    set_flag(&mut executor, "C", false as u32);
    set_flag(&mut executor, "Z", false as u32);
    set_flag(&mut executor, "N", false as u32);

    let instruction: V7Operation = V7Operation::AsrRegister { s: Some(SetFlags::InITBlock(false)), rd: Register::R1, rn: Register::R1, rm: Register::R2 };

    let instruction = Instruction {
        operations: (16, instruction).convert(false),
        instruction_size: 16,
        max_cycle: CycleCount::Value(0),
    };
    executor
        .execute_instruction(&instruction)
        .expect("Malformed instruction");

    assert!(register(&mut executor, "R1") == 0x00000000, "R1 == 0x00000000");
    assert!(flag(&mut executor, "C") == 1, "C == 1");
    assert!(flag(&mut executor, "Z") == 1, "Z == 1");
}

#[test]
fn test_b() {
    let mut executor = v7_executor();

    set_register(&mut executor, "PC", 0);
    set_register(&mut executor, "R1", 0x80000000);
    set_register(&mut executor, "R2", 1);
    set_flag(&mut executor, "C", true as u32);

    let instruction: V7Operation = V7Operation::B { condition: ArmCondition::AL, imm: 1230 };

    let instruction = Instruction {
        operations: (16, instruction).convert(false),
        instruction_size: 16,
        max_cycle: CycleCount::Value(0),
    };
    executor
        .execute_instruction(&instruction)
        .expect("Malformed instruction");

    assert!(register(&mut executor, "PC") == 1234, "PC == 1234");
}

#[test]
fn test_b_coditional() {
    let mut executor = v7_executor();

    set_register(&mut executor, "PC", 0);
    set_register(&mut executor, "R1", 0x80000000);
    set_register(&mut executor, "R2", 1);
    set_flag(&mut executor, "C", true as u32);

    let instruction: V7Operation = V7Operation::B { condition: ArmCondition::CS, imm: 1230 };

    let instruction = Instruction {
        operations: (16, instruction).convert(false),
        instruction_size: 16,
        max_cycle: CycleCount::Value(0),
    };
    executor
        .execute_instruction(&instruction)
        .expect("Malformed instruction");

    assert!(register(&mut executor, "PC") == 1234, "PC == 1234");

    set_register(&mut executor, "PC", 0);
    set_register(&mut executor, "R1", 0x80000000);
    set_register(&mut executor, "R2", 1);
    set_flag(&mut executor, "C", true as u32);

    let instruction: V7Operation = V7Operation::B { condition: ArmCondition::CC, imm: 1230 };

    let instruction = Instruction {
        operations: (16, instruction).convert(false),
        instruction_size: 16,
        max_cycle: CycleCount::Value(0),
    };
    executor
        .execute_instruction(&instruction)
        .expect("Malformed instruction");

    assert!(register(&mut executor, "PC") == 2, "PC == 2");

    set_register(&mut executor, "PC", 0);
    set_register(&mut executor, "R1", 0x80000000);
    set_register(&mut executor, "R2", 1);
    set_flag(&mut executor, "V", true as u32);

    let instruction: V7Operation = V7Operation::B { condition: ArmCondition::VS, imm: 1230 };

    let instruction = Instruction {
        operations: (16, instruction).convert(false),
        instruction_size: 16,
        max_cycle: CycleCount::Value(0),
    };
    executor
        .execute_instruction(&instruction)
        .expect("Malformed instruction");

    assert!(register(&mut executor, "PC") == 1234, "PC == 1234");

    set_register(&mut executor, "PC", 0);
    set_register(&mut executor, "R1", 0x80000000);
    set_register(&mut executor, "R2", 1);
    set_flag(&mut executor, "V", true as u32);

    let instruction: V7Operation = V7Operation::B { condition: ArmCondition::VC, imm: 1230 };

    let instruction = Instruction {
        operations: (16, instruction).convert(false),
        instruction_size: 16,
        max_cycle: CycleCount::Value(0),
    };
    executor
        .execute_instruction(&instruction)
        .expect("Malformed instruction");

    assert!(register(&mut executor, "PC") == 2, "PC == 2");
}

#[test]
fn test_bx() {
    let mut executor = v7_executor();

    set_register(&mut executor, "PC", 0);
    set_register(&mut executor, "LR", 0x1234);
    set_register(&mut executor, "R1", 0x80000000);
    set_register(&mut executor, "R2", 1);
    set_flag(&mut executor, "C", true as u32);

    let instruction: V7Operation = V7Operation::Bx { rm: Register::LR };

    let instruction = Instruction {
        operations: (16, instruction).convert(false),
        instruction_size: 16,
        max_cycle: CycleCount::Value(0),
    };
    executor
        .execute_instruction(&instruction)
        .expect("Malformed instruction");

    assert!(register(&mut executor, "PC") == 0x1234, "PC == 0x1234");
}

#[test]
fn test_bfc() {
    let mut executor = v7_executor();

    set_register(&mut executor, "PC", 0);
    set_register(&mut executor, "R1", 0x80010003);
    set_register(&mut executor, "R2", 1);
    set_flag(&mut executor, "C", true as u32);

    let instruction: V7Operation = V7Operation::Bfc { rd: Register::R1, lsb: 0, msb: 2 };

    let instruction = Instruction {
        operations: (16, instruction).convert(false),
        instruction_size: 16,
        max_cycle: CycleCount::Value(0),
    };
    executor
        .execute_instruction(&instruction)
        .expect("Malformed instruction");

    assert!(register(&mut executor, "R1") == 0x80010000, "R1 == 0x80010000");
}

#[test]
fn test_bfi() {
    let mut executor = v7_executor();

    set_register(&mut executor, "PC", 0);
    set_register(&mut executor, "R1", 0x80010003);
    set_register(&mut executor, "R2", 12);
    set_flag(&mut executor, "C", true as u32);

    let instruction: V7Operation = V7Operation::Bfi { rd: Register::R1, rn: Register::R2, lsb: 0, msb: 4 };

    let instruction = Instruction {
        operations: (16, instruction).convert(false),
        instruction_size: 16,
        max_cycle: CycleCount::Value(0),
    };
    executor
        .execute_instruction(&instruction)
        .expect("Malformed instruction");

    assert!(register(&mut executor, "R1") == 0x8001000c, "R1 == 0x8001000c");
}

#[test]
#[should_panic]
fn test_bfi_panic() {
    let mut executor = v7_executor();

    set_register(&mut executor, "PC", 0);
    set_register(&mut executor, "R1", 0x80010003);
    set_register(&mut executor, "R2", 12);
    set_flag(&mut executor, "C", true as u32);

    let instruction: V7Operation = V7Operation::Bfi { rd: Register::R1, rn: Register::R2, lsb: 4, msb: 0 };

    let instruction = Instruction {
        operations: try_convert(16, &instruction, false).unwrap(),
        instruction_size: 16,
        max_cycle: CycleCount::Value(0),
    };
    executor
        .execute_instruction(&instruction)
        .expect("Malformed instruction");

    assert!(register(&mut executor, "R1") == 0x8001000c, "R1 == 0x8001000c");
}

#[test]
fn test_bic_imm() {
    let mut executor = v7_executor();

    set_register(&mut executor, "PC", 0);
    set_register(&mut executor, "R1", 0x80010003);
    set_register(&mut executor, "R2", 12);
    set_flag(&mut executor, "C", false as u32);

    let instruction: V7Operation = V7Operation::BicImmediate { s: Some(false), rd: None, rn: Register::R1, imm: 0b00110, carry: Some(true) };

    let instruction = Instruction {
        operations: (16, instruction).convert(false),
        instruction_size: 16,
        max_cycle: CycleCount::Value(0),
    };
    executor
        .execute_instruction(&instruction)
        .expect("Malformed instruction");

    assert!(register(&mut executor, "R1") == 0x80010001, "R1 == 0x80010001");
    assert!(flag(&mut executor, "C") == 0, "C == 0");
}

#[test]
fn test_bic_imm_set_flags() {
    let mut executor = v7_executor();

    set_register(&mut executor, "PC", 0);
    set_register(&mut executor, "R1", 0x80010003);
    set_register(&mut executor, "R2", 12);
    set_flag(&mut executor, "C", true as u32);

    let instruction: V7Operation = V7Operation::BicImmediate { s: Some(true), rd: None, rn: Register::R1, imm: 0b00110, carry: Some(true) };

    let instruction = Instruction {
        operations: (16, instruction).convert(false),
        instruction_size: 16,
        max_cycle: CycleCount::Value(0),
    };
    executor
        .execute_instruction(&instruction)
        .expect("Malformed instruction");

    assert!(register(&mut executor, "R1") == 0x80010001, "R1 == 0x80010001");
    assert!(flag(&mut executor, "C") == 1, "C == 1");
    set_register(&mut executor, "PC", 0);
    set_register(&mut executor, "R1", 0x80010003);
    set_register(&mut executor, "R2", 12);
    set_flag(&mut executor, "C", true as u32);
    set_flag(&mut executor, "Z", false as u32);

    let instruction: V7Operation = V7Operation::BicImmediate { s: Some(true), rd: None, rn: Register::R1, imm: 0xFFFFFFFF, carry: Some(true) };

    let instruction = Instruction {
        operations: (16, instruction).convert(false),
        instruction_size: 16,
        max_cycle: CycleCount::Value(0),
    };
    executor
        .execute_instruction(&instruction)
        .expect("Malformed instruction");

    assert!(register(&mut executor, "R1") == 0, "R1 == 0");
    assert!(flag(&mut executor, "C") == 1, "C == 1");
    assert!(flag(&mut executor, "Z") == 1, "Z == 1");
}

#[test]
fn test_bic_reg() {
    let mut executor = v7_executor();

    set_register(&mut executor, "PC", 0);
    set_register(&mut executor, "R1", 0x80010003);
    set_register(&mut executor, "R2", (0b0110) as u32);
    set_flag(&mut executor, "C", false as u32);

    let instruction: V7Operation = V7Operation::BicRegister { s: Some(SetFlags::Literal(false)), rd: None, rn: Register::R1, rm: Register::R2, shift: None };

    let instruction = Instruction {
        operations: (16, instruction).convert(false),
        instruction_size: 16,
        max_cycle: CycleCount::Value(0),
    };
    executor
        .execute_instruction(&instruction)
        .expect("Malformed instruction");

    assert!(register(&mut executor, "R1") == 0x80010001, "R1 == 0x80010001");
    assert!(flag(&mut executor, "C") == 0, "C == 0");
}

#[test]
fn test_bic_reg_set_flags() {
    let mut executor = v7_executor();

    set_register(&mut executor, "PC", 0);
    set_register(&mut executor, "R1", 0x80010003);
    set_register(&mut executor, "R2", (0b11) as u32);
    set_flag(&mut executor, "C", true as u32);

    let instruction: V7Operation = V7Operation::BicRegister { s: Some(SetFlags::Literal(true)), rd: None, rn: Register::R1, rm: Register::R2, shift: Some(ImmShift {
            shift_n: 1,
            shift_t: Shift::Lsl,
        }) };

    let instruction = Instruction {
        operations: (16, instruction).convert(false),
        instruction_size: 16,
        max_cycle: CycleCount::Value(0),
    };
    executor
        .execute_instruction(&instruction)
        .expect("Malformed instruction");

    assert!(register(&mut executor, "R1") == 0x80010001, "R1 == 0x80010001");
    assert!(flag(&mut executor, "C") == 0, "C == 0");
    set_register(&mut executor, "PC", 0);
    set_register(&mut executor, "R1", 0x80010000);
    set_register(&mut executor, "R2", 0xFFFFFFFF);
    set_flag(&mut executor, "C", false as u32);
    set_flag(&mut executor, "Z", false as u32);

    let instruction: V7Operation = V7Operation::BicRegister { s: Some(SetFlags::Literal(true)), rd: None, rn: Register::R1, rm: Register::R2, shift: Some(ImmShift {
            shift_n: 1,
            shift_t: Shift::Lsl,
        }) };

    let instruction = Instruction {
        operations: (16, instruction).convert(false),
        instruction_size: 16,
        max_cycle: CycleCount::Value(0),
    };
    executor
        .execute_instruction(&instruction)
        .expect("Malformed instruction");

    assert!(register(&mut executor, "R1") == 0, "R1 == 0");
    assert!(flag(&mut executor, "C") == 1, "C == 1");
    assert!(flag(&mut executor, "Z") == 1, "Z == 1");
}

#[test]
fn test_bl() {
    let mut executor = v7_executor();

    let v6 = vec![
        Operation::Move {
            destination: Operand::Local("PC".to_owned()),
            source: Operand::Register("PC".to_owned()),
        },
        Operation::Move {
            destination: Operand::Register("LR".to_owned()),
            source: Operand::Local("PC".to_owned()),
        },
        Operation::Add {
            destination: Operand::Local("newPC".to_owned()),
            operand1: Operand::Local("PC".to_owned()),
            operand2: Operand::Immediate(DataWord::Word32(0x4)),
        },
        Operation::Move {
            destination: Operand::Register("PC".to_owned()),
            source: Operand::Local("newPC".to_owned()),
        },
    ];
    set_register(&mut executor, "PC", 0x100);
    set_register(&mut executor, "LR", 0xFFFFFFFF);
    set_flag(&mut executor, "C", false as u32);
    set_flag(&mut executor, "V", false as u32);
    set_flag(&mut executor, "N", false as u32);
    set_flag(&mut executor, "Z", false as u32);

    let instruction: V7Operation = V7Operation::Bl { imm: 0x4 };

    let instruction = Instruction {
        operations: (16, instruction).convert(false),
        instruction_size: 16,
        max_cycle: CycleCount::Value(0),
    };
    executor
        .execute_instruction(&instruction)
        .expect("Malformed instruction");

    assert!(register(&mut executor, "PC") == 0x108, "PC == 0x108");
    assert!(register(&mut executor, "LR") == 0x105, "LR == 0x105");
    assert!(flag(&mut executor, "C") == 0, "C == 0");
    assert!(flag(&mut executor, "V") == 0, "V == 0");
    assert!(flag(&mut executor, "N") == 0, "N == 0");
    assert!(flag(&mut executor, "Z") == 0, "Z == 0");

    set_register(&mut executor, "PC", 0x100);
    set_register(&mut executor, "LR", 0xFFFFFFFF);
    set_flag(&mut executor, "C", false as u32);
    set_flag(&mut executor, "V", false as u32);
    set_flag(&mut executor, "N", false as u32);
    set_flag(&mut executor, "Z", false as u32);

    let instruction = Instruction {
        operations: v6,
        instruction_size: 16,
        max_cycle: CycleCount::Value(0),
    };
    executor
        .execute_instruction(&instruction)
        .expect("Malformed instruction");

    // TODO! Discuss this, the spec is the same for the v6 and the v7 but the v6
    // only supports 16 bit instructions so this might be a fulhack?
    assert!(register(&mut executor, "PC") == 0x106, "PC == 0x106");
    assert!(register(&mut executor, "LR") == 0x102, "LR == 0x102");
    assert!(flag(&mut executor, "C") == 0, "C == 0");
    assert!(flag(&mut executor, "V") == 0, "V == 0");
    assert!(flag(&mut executor, "N") == 0, "N == 0");
    assert!(flag(&mut executor, "Z") == 0, "Z == 0");
}

#[test]
fn test_cmp_imm() {
    let mut executor = v7_executor();

    set_register(&mut executor, "R1", 0x3);
    set_flag(&mut executor, "C", false as u32);
    set_flag(&mut executor, "V", false as u32);
    set_flag(&mut executor, "N", false as u32);
    set_flag(&mut executor, "Z", false as u32);

    let instruction: V7Operation = V7Operation::CmpImmediate { rn: Register::R1, imm: 0x4 };

    let instruction = Instruction {
        operations: (16, instruction).convert(false),
        instruction_size: 16,
        max_cycle: CycleCount::Value(0),
    };
    executor
        .execute_instruction(&instruction)
        .expect("Malformed instruction");

    assert!(flag(&mut executor, "C") == 0, "C == 0");
    assert!(flag(&mut executor, "V") == 0, "V == 0");
    assert!(flag(&mut executor, "N") == 1, "N == 1");
    assert!(flag(&mut executor, "Z") == 0, "Z == 0");

    set_register(&mut executor, "R1", 0x4);
    set_flag(&mut executor, "C", false as u32);
    set_flag(&mut executor, "V", false as u32);
    set_flag(&mut executor, "N", false as u32);
    set_flag(&mut executor, "Z", false as u32);

    let instruction: V7Operation = V7Operation::CmpImmediate { rn: Register::R1, imm: 0x4 };

    let instruction = Instruction {
        operations: (16, instruction).convert(false),
        instruction_size: 16,
        max_cycle: CycleCount::Value(0),
    };
    executor
        .execute_instruction(&instruction)
        .expect("Malformed instruction");

    assert!(flag(&mut executor, "C") == 1, "C == 1");
    assert!(flag(&mut executor, "V") == 0, "V == 0");
    assert!(flag(&mut executor, "N") == 0, "N == 0");
    assert!(flag(&mut executor, "Z") == 1, "Z == 1");
}

#[test]
fn test_ldr_imm() {
    let mut executor = v7_executor();

    set_register(&mut executor, "R1", 0x3);
    set_address(&mut executor, 0x104, 32, 0x100);
    set_register(&mut executor, "SP", 0x104);

    let instruction: V7Operation = V7Operation::LdrImmediate { w: Some(false), add: true, index: true, rt: Register::R1, rn: Register::SP, imm: 0x0 };

    let instruction = Instruction {
        operations: (16, instruction).convert(false),
        instruction_size: 16,
        max_cycle: CycleCount::Value(0),
    };
    executor
        .execute_instruction(&instruction)
        .expect("Malformed instruction");

    assert!(register(&mut executor, "R1") == 0x100, "R1 == 0x100");
    assert!(register(&mut executor, "SP") == 0x104, "SP == 0x104");
    assert!(address(&mut executor, 0x104, 32) == 0x100, "0x104 == 0x100");

    set_register(&mut executor, "R1", 0x3);
    set_address(&mut executor, 0x104, 32, 0x100);
    set_register(&mut executor, "SP", 0x100);

    let instruction: V7Operation = V7Operation::LdrImmediate { w: Some(false), add: true, index: true, rt: Register::R1, rn: Register::SP, imm: 0x4 };

    let instruction = Instruction {
        operations: (16, instruction).convert(false),
        instruction_size: 16,
        max_cycle: CycleCount::Value(0),
    };
    executor
        .execute_instruction(&instruction)
        .expect("Malformed instruction");

    assert!(register(&mut executor, "R1") == 0x100, "R1 == 0x100");
    assert!(register(&mut executor, "SP") == 0x100, "SP == 0x100");
    assert!(address(&mut executor, 0x104, 32) == 0x100, "0x104 == 0x100");

    set_register(&mut executor, "R1", 0x3);
    set_address(&mut executor, 0x104, 32, 0x100);
    set_register(&mut executor, "SP", 0x108);

    let instruction: V7Operation = V7Operation::LdrImmediate { w: Some(false), add: false, index: true, rt: Register::R1, rn: Register::SP, imm: 0x4 };

    let instruction = Instruction {
        operations: (16, instruction).convert(false),
        instruction_size: 16,
        max_cycle: CycleCount::Value(0),
    };
    executor
        .execute_instruction(&instruction)
        .expect("Malformed instruction");

    assert!(register(&mut executor, "R1") == 0x100, "R1 == 0x100");
    assert!(register(&mut executor, "SP") == 0x108, "SP == 0x108");
    assert!(address(&mut executor, 0x104, 32) == 0x100, "0x104 == 0x100");

    set_register(&mut executor, "R1", 0x3);
    set_address(&mut executor, 0x104, 32, 0x100);
    set_register(&mut executor, "SP", 0x104);

    let instruction: V7Operation = V7Operation::LdrImmediate { w: Some(false), add: true, index: false, rt: Register::R1, rn: Register::SP, imm: 0x4 };

    let instruction = Instruction {
        operations: (16, instruction).convert(false),
        instruction_size: 16,
        max_cycle: CycleCount::Value(0),
    };
    executor
        .execute_instruction(&instruction)
        .expect("Malformed instruction");

    assert!(register(&mut executor, "R1") == 0x100, "R1 == 0x100");
    assert!(register(&mut executor, "SP") == 0x104, "SP == 0x104");
    assert!(address(&mut executor, 0x104, 32) == 0x100, "0x104 == 0x100");
    set_register(&mut executor, "R1", 0x3);
    set_address(&mut executor, 0x104, 32, 0x100);
    set_register(&mut executor, "SP", 0x100);

    let instruction: V7Operation = V7Operation::LdrImmediate { w: Some(true), add: true, index: true, rt: Register::R1, rn: Register::SP, imm: 0x4 };

    let instruction = Instruction {
        operations: (16, instruction).convert(false),
        instruction_size: 16,
        max_cycle: CycleCount::Value(0),
    };
    executor
        .execute_instruction(&instruction)
        .expect("Malformed instruction");

    assert!(register(&mut executor, "R1") == 0x100, "R1 == 0x100");
    assert!(register(&mut executor, "SP") == 0x104, "SP == 0x104");
    assert!(address(&mut executor, 0x104, 32) == 0x100, "0x104 == 0x100");
}

#[test]
fn test_ldr_literal() {
    let mut executor = v7_executor();

    set_register(&mut executor, "R1", 0x3);
    set_address(&mut executor, 0x104, 32, 0x100);
    set_register(&mut executor, "PC", 0);

    let instruction: V7Operation = V7Operation::LdrLiteral { add: true, rt: Register::R1, imm: 0x100 };

    let instruction = Instruction {
        operations: (16, instruction).convert(false),
        instruction_size: 16,
        max_cycle: CycleCount::Value(0),
    };
    executor
        .execute_instruction(&instruction)
        .expect("Malformed instruction");

    assert!(register(&mut executor, "R1") == 0x100, "R1 == 0x100");
    assert!(address(&mut executor, 0x104, 32) == 0x100, "0x104 == 0x100");
}

#[test]
fn test_ldr_register() {
    let mut executor = v7_executor();

    set_register(&mut executor, "R1", 0x4);
    set_address(&mut executor, 0x104, 32, 0x100);
    set_register(&mut executor, "SP", 0x100);

    let instruction: V7Operation = V7Operation::LdrRegister { w: Some(false), rt: Register::SP, rn: Register::R1, rm: Register::SP, shift: None };

    let instruction = Instruction {
        operations: (16, instruction).convert(false),
        instruction_size: 16,
        max_cycle: CycleCount::Value(0),
    };
    executor
        .execute_instruction(&instruction)
        .expect("Malformed instruction");

    assert!(register(&mut executor, "SP") == 0x100, "SP == 0x100");
    assert!(address(&mut executor, 0x104, 32) == 0x100, "0x104 == 0x100");
    assert!(register(&mut executor, "R1") == 0x4, "R1 == 0x4");

    set_register(&mut executor, "R1", 0x4);
    set_address(&mut executor, 0x104, 32, 0x100);
    set_register(&mut executor, "SP", 0x100);

    let instruction: V7Operation = V7Operation::LdrRegister { w: Some(true), rt: Register::SP, rn: Register::R1, rm: Register::SP, shift: None };

    let instruction = Instruction {
        operations: (16, instruction).convert(false),
        instruction_size: 16,
        max_cycle: CycleCount::Value(0),
    };
    executor
        .execute_instruction(&instruction)
        .expect("Malformed instruction");

    assert!(register(&mut executor, "SP") == 0x100, "SP == 0x100");
    assert!(address(&mut executor, 0x104, 32) == 0x100, "0x104 == 0x100");
    assert!(register(&mut executor, "R1") == 0x104, "R1 == 0x104");

    set_register(&mut executor, "R1", 0x4);
    set_address(&mut executor, 0x20c, 32, 0x100);
    set_register(&mut executor, "SP", 0x104);

    let instruction: V7Operation = V7Operation::LdrRegister { w: Some(true), rt: Register::SP, rn: Register::R1, rm: Register::SP, shift: Some(ImmShift {
            shift_t: Shift::Lsl,
            shift_n: 1,
        }) };

    let instruction = Instruction {
        operations: (16, instruction).convert(false),
        instruction_size: 16,
        max_cycle: CycleCount::Value(0),
    };
    executor
        .execute_instruction(&instruction)
        .expect("Malformed instruction");

    assert!(register(&mut executor, "SP") == 0x100, "SP == 0x100");
    assert!(address(&mut executor, 0x20c, 32) == 0x100, "0x20c == 0x100");
    assert!(register(&mut executor, "R1") == 0x20c, "R1 == 0x20c");
}

#[test]
fn test_ldrh_imm() {
    let mut executor = v7_executor();

    set_register(&mut executor, "R1", 0x3);
    set_address(&mut executor, 0x104, 32, 0x8001000);
    set_register(&mut executor, "SP", 0x104);

    let instruction: V7Operation = V7Operation::LdrhImmediate { w: Some(false), add: Some(true), index: Some(true), rt: Register::R1, rn: Register::SP, imm: 0x0 };

    let instruction = Instruction {
        operations: (16, instruction).convert(false),
        instruction_size: 16,
        max_cycle: CycleCount::Value(0),
    };
    executor
        .execute_instruction(&instruction)
        .expect("Malformed instruction");

    assert!(register(&mut executor, "R1") == 0x1000, "R1 == 0x1000");
    assert!(register(&mut executor, "SP") == 0x104, "SP == 0x104");

    set_register(&mut executor, "R1", 0x3);
    set_address(&mut executor, 0x104, 32, 0x80001000);
    set_register(&mut executor, "SP", 0x100);

    let instruction: V7Operation = V7Operation::LdrhImmediate { w: Some(false), add: Some(true), index: Some(true), rt: Register::R1, rn: Register::SP, imm: 0x4 };

    let instruction = Instruction {
        operations: (16, instruction).convert(false),
        instruction_size: 16,
        max_cycle: CycleCount::Value(0),
    };
    executor
        .execute_instruction(&instruction)
        .expect("Malformed instruction");

    assert!(register(&mut executor, "R1") == 0x1000, "R1 == 0x1000");
    assert!(register(&mut executor, "SP") == 0x100, "SP == 0x100");

    set_register(&mut executor, "R1", 0x3);
    set_address(&mut executor, 0x104, 32, 0x80001000);
    set_register(&mut executor, "SP", 0x108);

    let instruction: V7Operation = V7Operation::LdrhImmediate { w: Some(false), add: Some(false), index: Some(true), rt: Register::R1, rn: Register::SP, imm: 0x4 };

    let instruction = Instruction {
        operations: (16, instruction).convert(false),
        instruction_size: 16,
        max_cycle: CycleCount::Value(0),
    };
    executor
        .execute_instruction(&instruction)
        .expect("Malformed instruction");

    assert!(register(&mut executor, "R1") == 0x1000, "R1 == 0x1000");
    assert!(register(&mut executor, "SP") == 0x108, "SP == 0x108");

    set_register(&mut executor, "R1", 0x3);
    set_address(&mut executor, 0x104, 32, 0x80001000);
    set_register(&mut executor, "SP", 0x104);

    let instruction: V7Operation = V7Operation::LdrhImmediate { w: Some(false), add: Some(true), index: Some(false), rt: Register::R1, rn: Register::SP, imm: 0x4 };

    let instruction = Instruction {
        operations: (16, instruction).convert(false),
        instruction_size: 16,
        max_cycle: CycleCount::Value(0),
    };
    executor
        .execute_instruction(&instruction)
        .expect("Malformed instruction");

    assert!(register(&mut executor, "R1") == 0x1000, "R1 == 0x1000");
    assert!(register(&mut executor, "SP") == 0x104, "SP == 0x104");
    set_register(&mut executor, "R1", 0x3);
    set_address(&mut executor, 0x104, 32, 0x80001000);
    set_register(&mut executor, "SP", 0x100);

    let instruction: V7Operation = V7Operation::LdrhImmediate { w: Some(true), add: Some(true), index: Some(true), rt: Register::R1, rn: Register::SP, imm: 0x4 };

    let instruction = Instruction {
        operations: (16, instruction).convert(false),
        instruction_size: 16,
        max_cycle: CycleCount::Value(0),
    };
    executor
        .execute_instruction(&instruction)
        .expect("Malformed instruction");

    assert!(register(&mut executor, "R1") == 0x1000, "R1 == 0x1000");
    assert!(register(&mut executor, "SP") == 0x104, "SP == 0x104");
}

#[test]
fn test_ldrb_imm() {
    let mut executor = v7_executor();

    set_register(&mut executor, "R1", 0x3);
    set_address(&mut executor, 0x104, 32, 0x8001000);
    set_register(&mut executor, "SP", 0x104);

    let instruction: V7Operation = V7Operation::LdrbImmediate { w: Some(false), add: Some(true), index: true, rt: Register::R1, rn: Register::SP, imm: Some(0x0) };

    let instruction = Instruction {
        operations: (16, instruction).convert(false),
        instruction_size: 16,
        max_cycle: CycleCount::Value(0),
    };
    executor
        .execute_instruction(&instruction)
        .expect("Malformed instruction");

    assert!(register(&mut executor, "R1") == 0x0000, "R1 == 0x0000");
    assert!(register(&mut executor, "SP") == 0x104, "SP == 0x104");

    set_register(&mut executor, "R1", 0x3);
    set_address(&mut executor, 0x104, 32, 0x8001001);
    set_register(&mut executor, "SP", 0x104);

    let instruction: V7Operation = V7Operation::LdrbImmediate { w: Some(false), add: Some(true), index: true, rt: Register::R1, rn: Register::SP, imm: Some(0x0) };

    let instruction = Instruction {
        operations: (16, instruction).convert(false),
        instruction_size: 16,
        max_cycle: CycleCount::Value(0),
    };
    executor
        .execute_instruction(&instruction)
        .expect("Malformed instruction");

    assert!(register(&mut executor, "R1") == 0x0001, "R1 == 0x0001");
    assert!(register(&mut executor, "SP") == 0x104, "SP == 0x104");

    set_register(&mut executor, "R1", 0x3);
    set_address(&mut executor, 0x104, 32, 0x80001001);
    set_register(&mut executor, "SP", 0x100);

    let instruction: V7Operation = V7Operation::LdrbImmediate { w: Some(false), add: Some(true), index: true, rt: Register::R1, rn: Register::SP, imm: Some(0x4) };

    let instruction = Instruction {
        operations: (16, instruction).convert(false),
        instruction_size: 16,
        max_cycle: CycleCount::Value(0),
    };
    executor
        .execute_instruction(&instruction)
        .expect("Malformed instruction");

    assert!(register(&mut executor, "R1") == 0x001, "R1 == 0x001");
    assert!(register(&mut executor, "SP") == 0x100, "SP == 0x100");

    set_register(&mut executor, "R1", 0x3);
    set_address(&mut executor, 0x104, 32, 0x80001002);
    set_register(&mut executor, "SP", 0x108);

    let instruction: V7Operation = V7Operation::LdrbImmediate { w: Some(false), add: Some(false), index: true, rt: Register::R1, rn: Register::SP, imm: Some(0x4) };

    let instruction = Instruction {
        operations: (16, instruction).convert(false),
        instruction_size: 16,
        max_cycle: CycleCount::Value(0),
    };
    executor
        .execute_instruction(&instruction)
        .expect("Malformed instruction");

    assert!(register(&mut executor, "R1") == 0x0002, "R1 == 0x0002");
    assert!(register(&mut executor, "SP") == 0x108, "SP == 0x108");

    set_register(&mut executor, "R1", 0x3);
    set_address(&mut executor, 0x104, 32, 0x80001004);
    set_register(&mut executor, "SP", 0x104);

    let instruction: V7Operation = V7Operation::LdrbImmediate { w: Some(false), add: Some(true), index: false, rt: Register::R1, rn: Register::SP, imm: Some(0x4) };

    let instruction = Instruction {
        operations: (16, instruction).convert(false),
        instruction_size: 16,
        max_cycle: CycleCount::Value(0),
    };
    executor
        .execute_instruction(&instruction)
        .expect("Malformed instruction");

    assert!(register(&mut executor, "R1") == 0x004, "R1 == 0x004");
    assert!(register(&mut executor, "SP") == 0x104, "SP == 0x104");
    set_register(&mut executor, "R1", 0x3);
    set_address(&mut executor, 0x104, 32, 0x80001006);
    set_register(&mut executor, "SP", 0x100);

    let instruction: V7Operation = V7Operation::LdrbImmediate { w: Some(true), add: Some(true), index: true, rt: Register::R1, rn: Register::SP, imm: Some(0x4) };

    let instruction = Instruction {
        operations: (16, instruction).convert(false),
        instruction_size: 16,
        max_cycle: CycleCount::Value(0),
    };
    executor
        .execute_instruction(&instruction)
        .expect("Malformed instruction");

    assert!(register(&mut executor, "R1") == 0x0006, "R1 == 0x0006");
    assert!(register(&mut executor, "SP") == 0x104, "SP == 0x104");
}

#[test]
fn test_lsl_immediate() {
    let mut executor = v7_executor();

    set_register(&mut executor, "R1", 0x3);
    set_flag(&mut executor, "C", 0);
    set_flag(&mut executor, "Z", 0);
    set_flag(&mut executor, "N", 0);

    let instruction: V7Operation = V7Operation::LslImmediate { s: Some(SetFlags::InITBlock(false)), rd: Register::R1, rm: Register::R1, imm: 0x0 };

    let instruction = Instruction {
        operations: (16, instruction).convert(false),
        instruction_size: 16,
        max_cycle: CycleCount::Value(0),
    };
    executor
        .execute_instruction(&instruction)
        .expect("Malformed instruction");

    assert!(register(&mut executor, "R1") == 0x3, "R1 == 0x3");
    assert!(flag(&mut executor, "C") == 0, "C == 0");
    assert!(flag(&mut executor, "Z") == 0, "Z == 0");
    assert!(flag(&mut executor, "N") == 0, "N == 0");

    set_register(&mut executor, "R1", 0x8000_0000);
    set_register(&mut executor, "R2", 0x1);
    set_flag(&mut executor, "C", 0);
    set_flag(&mut executor, "Z", 0);
    set_flag(&mut executor, "N", 0);

    let instruction: V7Operation = V7Operation::LslImmediate { s: Some(SetFlags::InITBlock(false)), rd: Register::R1, rm: Register::R1, imm: 0x1 };

    let instruction = Instruction {
        operations: (16, instruction).convert(false),
        instruction_size: 16,
        max_cycle: CycleCount::Value(0),
    };
    executor
        .execute_instruction(&instruction)
        .expect("Malformed instruction");

    assert!(register(&mut executor, "R1") == 0, "R1 == 0");
    assert!(flag(&mut executor, "C") == 1, "C == 1");
    assert!(flag(&mut executor, "Z") == 1, "Z == 1");
    assert!(flag(&mut executor, "N") == 0, "N == 0");
}

#[test]
fn test_lsr_immediate() {
    let mut executor = v7_executor();

    set_register(&mut executor, "R1", 24);
    set_flag(&mut executor, "C", 0);
    set_flag(&mut executor, "Z", 0);
    set_flag(&mut executor, "N", 0);

    let instruction: V7Operation = V7Operation::LsrImmediate { s: Some(SetFlags::InITBlock(false)), rd: Register::R1, rm: Register::R1, imm: 0x3 };

    let instruction = Instruction {
        operations: (16, instruction).convert(false),
        instruction_size: 16,
        max_cycle: CycleCount::Value(0),
    };
    executor
        .execute_instruction(&instruction)
        .expect("Malformed instruction");

    assert!(register(&mut executor, "R1") == 3, "R1 == 3");
    assert!(flag(&mut executor, "C") == 0, "C == 0");
    assert!(flag(&mut executor, "Z") == 0, "Z == 0");
    assert!(flag(&mut executor, "N") == 0, "N == 0");

    set_register(&mut executor, "R1", 0x0000_0001);
    set_register(&mut executor, "R2", 0x1);
    set_flag(&mut executor, "C", 0);
    set_flag(&mut executor, "Z", 0);
    set_flag(&mut executor, "N", 0);

    let instruction: V7Operation = V7Operation::LsrImmediate { s: Some(SetFlags::InITBlock(false)), rd: Register::R1, rm: Register::R1, imm: 0x1 };

    let instruction = Instruction {
        operations: (16, instruction).convert(false),
        instruction_size: 16,
        max_cycle: CycleCount::Value(0),
    };
    executor
        .execute_instruction(&instruction)
        .expect("Malformed instruction");

    assert!(register(&mut executor, "R1") == 0, "R1 == 0");
    assert!(flag(&mut executor, "C") == 1, "C == 1");
    assert!(flag(&mut executor, "Z") == 1, "Z == 1");
    assert!(flag(&mut executor, "N") == 0, "N == 0");
}

#[test]
fn test_mov_imm_no_set_flags() {
    let mut executor = v7_executor();

    set_register(&mut executor, "R1", 0x3);
    set_flag(&mut executor, "C", 0);
    set_flag(&mut executor, "Z", 0);
    set_flag(&mut executor, "N", 0);

    let instruction: V7Operation = V7Operation::MovImmediate { s: None, rd: Register::R1, imm: 0x0, carry: Some(true) };

    let instruction = Instruction {
        operations: (16, instruction).convert(false),
        instruction_size: 16,
        max_cycle: CycleCount::Value(0),
    };
    executor
        .execute_instruction(&instruction)
        .expect("Malformed instruction");

    assert!(register(&mut executor, "R1") == 0x0, "R1 == 0x0");
    assert!(flag(&mut executor, "C") == 0, "C == 0");
    assert!(flag(&mut executor, "Z") == 0, "Z == 0");
    assert!(flag(&mut executor, "N") == 0, "N == 0");
}

#[test]
fn test_mov_imm_set_flags() {
    let mut executor = v7_executor();

    set_register(&mut executor, "R1", 0x3);
    set_flag(&mut executor, "C", 0);
    set_flag(&mut executor, "Z", 0);
    set_flag(&mut executor, "N", 0);

    let instruction: V7Operation = V7Operation::MovImmediate { s: Some(SetFlags::Literal(true)), rd: Register::R1, imm: 0x0, carry: Some(true) };

    let instruction = Instruction {
        operations: (16, instruction).convert(false),
        instruction_size: 16,
        max_cycle: CycleCount::Value(0),
    };
    executor
        .execute_instruction(&instruction)
        .expect("Malformed instruction");

    assert!(register(&mut executor, "R1") == 0x0, "R1 == 0x0");
    assert!(flag(&mut executor, "C") == 1, "C == 1");
    assert!(flag(&mut executor, "Z") == 1, "Z == 1");
    assert!(flag(&mut executor, "N") == 0, "N == 0");

    set_register(&mut executor, "R1", 0x3);
    set_flag(&mut executor, "C", 0);
    set_flag(&mut executor, "Z", 0);
    set_flag(&mut executor, "N", 0);

    let instruction: V7Operation = V7Operation::MovImmediate { s: Some(SetFlags::Literal(true)), rd: Register::R1, imm: 0x80010001, carry: Some(true) };

    let instruction = Instruction {
        operations: (16, instruction).convert(false),
        instruction_size: 16,
        max_cycle: CycleCount::Value(0),
    };
    executor
        .execute_instruction(&instruction)
        .expect("Malformed instruction");

    assert!(register(&mut executor, "R1") == 0x80010001, "R1 == 0x80010001");
    assert!(flag(&mut executor, "C") == 1, "C == 1");
    assert!(flag(&mut executor, "Z") == 0, "Z == 0");
    assert!(flag(&mut executor, "N") == 1, "N == 1");
}

#[test]
fn test_mov_reg_no_set_flags() {
    let mut executor = v7_executor();

    set_register(&mut executor, "R1", 0x3);
    set_register(&mut executor, "R2", 0x0);
    set_flag(&mut executor, "C", 0);
    set_flag(&mut executor, "Z", 0);
    set_flag(&mut executor, "N", 0);

    let instruction: V7Operation = V7Operation::MovRegister { s: None, rd: Register::R1, rm: Register::R2 };

    let instruction = Instruction {
        operations: (16, instruction).convert(false),
        instruction_size: 16,
        max_cycle: CycleCount::Value(0),
    };
    executor
        .execute_instruction(&instruction)
        .expect("Malformed instruction");

    assert!(register(&mut executor, "R1") == 0x0, "R1 == 0x0");
    assert!(flag(&mut executor, "C") == 0, "C == 0");
    assert!(flag(&mut executor, "Z") == 0, "Z == 0");
    assert!(flag(&mut executor, "N") == 0, "N == 0");
}

#[test]
fn test_mov_reg_set_flags() {
    let mut executor = v7_executor();

    set_register(&mut executor, "R1", 0x3);
    set_register(&mut executor, "R2", 0x0);
    set_flag(&mut executor, "C", 0);
    set_flag(&mut executor, "Z", 0);
    set_flag(&mut executor, "N", 0);

    let instruction: V7Operation = V7Operation::MovRegister { s: Some(true), rd: Register::R1, rm: Register::R2 };

    let instruction = Instruction {
        operations: (16, instruction).convert(false),
        instruction_size: 16,
        max_cycle: CycleCount::Value(0),
    };
    executor
        .execute_instruction(&instruction)
        .expect("Malformed instruction");

    assert!(register(&mut executor, "R1") == 0x0, "R1 == 0x0");
    assert!(flag(&mut executor, "C") == 0, "C == 0");
    assert!(flag(&mut executor, "Z") == 1, "Z == 1");
    assert!(flag(&mut executor, "N") == 0, "N == 0");

    set_register(&mut executor, "R1", 0x3);
    set_register(&mut executor, "R2", 0x80010001);
    set_flag(&mut executor, "C", 0);
    set_flag(&mut executor, "Z", 0);
    set_flag(&mut executor, "N", 0);

    let instruction: V7Operation = V7Operation::MovRegister { s: Some(true), rd: Register::R1, rm: Register::R2 };

    let instruction = Instruction {
        operations: (16, instruction).convert(false),
        instruction_size: 16,
        max_cycle: CycleCount::Value(0),
    };
    executor
        .execute_instruction(&instruction)
        .expect("Malformed instruction");

    assert!(register(&mut executor, "R1") == 0x80010001, "R1 == 0x80010001");
    assert!(flag(&mut executor, "Z") == 0, "Z == 0");
    assert!(flag(&mut executor, "N") == 1, "N == 1");
}

#[test]
fn test_test_mul() {
    let mut executor = v7_executor();

    set_register(&mut executor, "R1", 0x3);
    set_register(&mut executor, "R2", 0x2);
    set_flag(&mut executor, "C", 0);
    set_flag(&mut executor, "Z", 0);
    set_flag(&mut executor, "N", 0);

    let instruction: V7Operation = V7Operation::Mul { s: Some(SetFlags::InITBlock(false)), rd: Some(Register::R1), rn: Register::R1, rm: Register::R2 };

    let instruction = Instruction {
        operations: (16, instruction).convert(false),
        instruction_size: 16,
        max_cycle: CycleCount::Value(0),
    };
    executor
        .execute_instruction(&instruction)
        .expect("Malformed instruction");

    assert!(register(&mut executor, "R1") == 0x6, "R1 == 0x6");
    assert!(flag(&mut executor, "C") == 0, "C == 0");
    assert!(flag(&mut executor, "Z") == 0, "Z == 0");
    assert!(flag(&mut executor, "N") == 0, "N == 0");

    set_register(&mut executor, "R1", 0x3);
    set_register(&mut executor, "R2", 0x0);
    set_flag(&mut executor, "C", 0);
    set_flag(&mut executor, "Z", 0);
    set_flag(&mut executor, "N", 0);

    let instruction: V7Operation = V7Operation::Mul { s: Some(SetFlags::InITBlock(false)), rd: Some(Register::R1), rn: Register::R1, rm: Register::R2 };

    let instruction = Instruction {
        operations: (16, instruction).convert(false),
        instruction_size: 16,
        max_cycle: CycleCount::Value(0),
    };
    executor
        .execute_instruction(&instruction)
        .expect("Malformed instruction");

    assert!(register(&mut executor, "R1") == 0x0, "R1 == 0x0");
    assert!(flag(&mut executor, "C") == 0, "C == 0");
    assert!(flag(&mut executor, "Z") == 1, "Z == 1");
    assert!(flag(&mut executor, "N") == 0, "N == 0");
}

#[test]
fn test_pop() {
    let mut executor = v7_executor();

    set_register(&mut executor, "R1", 0x3);
    set_register(&mut executor, "R2", 0x0);
    set_flag(&mut executor, "C", 0);
    set_flag(&mut executor, "Z", 0);
    set_flag(&mut executor, "N", 0);
    set_register(&mut executor, "SP", 0x100);
    set_address(&mut executor, 0x100, 32, 0x1001);
    set_address(&mut executor, 0x104, 32, 0x1002);
    set_address(&mut executor, 0x108, 32, 0x1003);
    set_address(&mut executor, 0x10C, 32, 0x1003);

    let instruction: V7Operation = V7Operation::Pop { registers: vec![Register::R4, Register::R5, Register::R7, Register::PC] };

    let instruction = Instruction {
        operations: (16, instruction).convert(false),
        instruction_size: 16,
        max_cycle: CycleCount::Value(0),
    };
    executor
        .execute_instruction(&instruction)
        .expect("Malformed instruction");

    assert!(register(&mut executor, "R4") == 0x1001, "R4 == 0x1001");
    assert!(register(&mut executor, "R5") == 0x1002, "R5 == 0x1002");
    assert!(register(&mut executor, "R7") == 0x1003, "R7 == 0x1003");
    assert!(register(&mut executor, "PC") == 0x1002, "PC == 0x1002");
    assert!(register(&mut executor, "SP") == 0x110, "SP == 0x110");
}

#[test]
fn test_push() {
    let mut executor = v7_executor();

    set_register(&mut executor, "R1", 0x3);
    set_register(&mut executor, "R2", 0x0);
    set_flag(&mut executor, "C", 0);
    set_flag(&mut executor, "Z", 0);
    set_flag(&mut executor, "N", 0);
    set_register(&mut executor, "SP", 0x110);
    set_register(&mut executor, "R4", 0x1001);
    set_register(&mut executor, "R5", 0x1002);
    set_register(&mut executor, "R7", 0x1003);
    set_register(&mut executor, "LR", 0x1003);

    let instruction: V7Operation = V7Operation::Push { registers: vec![Register::R4, Register::R5, Register::R7, Register::LR] };

    let instruction = Instruction {
        operations: (16, instruction).convert(false),
        instruction_size: 16,
        max_cycle: CycleCount::Value(0),
    };
    executor
        .execute_instruction(&instruction)
        .expect("Malformed instruction");

    assert!(address(&mut executor, 0x100, 32) == 0x1001, "0x100 == 0x1001");
    assert!(address(&mut executor, 0x104, 32) == 0x1002, "0x104 == 0x1002");
    assert!(address(&mut executor, 0x108, 32) == 0x1003, "0x108 == 0x1003");
    assert!(address(&mut executor, 0x10C, 32) == 0x1003, "0x10C == 0x1003");
    assert!(register(&mut executor, "SP") == 0x100, "SP == 0x100");
}

#[test]
fn test_rsb() {
    let mut executor = v7_executor();

    set_register(&mut executor, "R1", 0x3);
    set_register(&mut executor, "R0", 24);
    set_flag(&mut executor, "C", 0);
    set_flag(&mut executor, "Z", 0);
    set_flag(&mut executor, "N", 0);

    let instruction: V7Operation = V7Operation::RsbImmediate { s: Some(SetFlags::InITBlock(false)), rd: Some(Register::R1), rn: Register::R0, imm: 1024 };

    let instruction = Instruction {
        operations: (16, instruction).convert(false),
        instruction_size: 16,
        max_cycle: CycleCount::Value(0),
    };
    executor
        .execute_instruction(&instruction)
        .expect("Malformed instruction");

    assert!(register(&mut executor, "R1") == 1000, "R1 == 1000");
    assert!(register(&mut executor, "R0") == 24, "R0 == 24");

    set_register(&mut executor, "R1", 0x3);
    set_register(&mut executor, "R0", 24);
    set_flag(&mut executor, "C", 0);
    set_flag(&mut executor, "Z", 0);
    set_flag(&mut executor, "N", 0);

    let instruction: V7Operation = V7Operation::RsbImmediate { s: Some(SetFlags::InITBlock(false)), rd: Some(Register::R1), rn: Register::R0, imm: 0 };

    let instruction = Instruction {
        operations: (16, instruction).convert(false),
        instruction_size: 16,
        max_cycle: CycleCount::Value(0),
    };
    executor
        .execute_instruction(&instruction)
        .expect("Malformed instruction");

    assert!(flag(&mut executor, "N") == 1, "N == 1");
}

#[test]
fn test_strb_imm() {
    let mut executor = v7_executor();

    set_register(&mut executor, "R1", 0x80001234);
    set_register(&mut executor, "R2", 0x101);
    set_address(&mut executor, 0x100, 32, 0x1234_0003);

    let instruction: V7Operation = V7Operation::StrbImmediate { w: Some(true), index: Some(true), add: true, rt: Register::R1, rn: Register::R2, imm: 2 };

    let instruction = Instruction {
        operations: (16, instruction).convert(false),
        instruction_size: 16,
        max_cycle: CycleCount::Value(0),
    };
    executor
        .execute_instruction(&instruction)
        .expect("Malformed instruction");

    assert!(address(&mut executor, 0x103, 8) == 0x034, "0x103 == 0x034");
    assert!(register(&mut executor, "R2") == 0x103, "R2 == 0x103");
    assert!(register(&mut executor, "R1") == 0x8000_1234, "R1 == 0x8000_1234");

    set_register(&mut executor, "R1", 0x80001234);
    set_register(&mut executor, "R2", 0x101);
    set_address(&mut executor, 0x100, 32, 0x1234_0003);

    let instruction: V7Operation = V7Operation::StrbImmediate { w: Some(false), index: Some(true), add: true, rt: Register::R1, rn: Register::R2, imm: 2 };

    let instruction = Instruction {
        operations: (16, instruction).convert(false),
        instruction_size: 16,
        max_cycle: CycleCount::Value(0),
    };
    executor
        .execute_instruction(&instruction)
        .expect("Malformed instruction");

    assert!(address(&mut executor, 0x103, 8) == 0x034, "0x103 == 0x034");
    assert!(register(&mut executor, "R2") == 0x101, "R2 == 0x101");
    assert!(register(&mut executor, "R1") == 0x8000_1234, "R1 == 0x8000_1234");

    set_register(&mut executor, "R1", 0x80001234);
    set_register(&mut executor, "R2", 0x105);
    set_address(&mut executor, 0x100, 32, 0x1234_0003);

    let instruction: V7Operation = V7Operation::StrbImmediate { w: Some(false), index: Some(true), add: false, rt: Register::R1, rn: Register::R2, imm: 2 };

    let instruction = Instruction {
        operations: (16, instruction).convert(false),
        instruction_size: 16,
        max_cycle: CycleCount::Value(0),
    };
    executor
        .execute_instruction(&instruction)
        .expect("Malformed instruction");

    assert!(address(&mut executor, 0x103, 8) == 0x034, "0x103 == 0x034");
    assert!(register(&mut executor, "R2") == 0x105, "R2 == 0x105");
    assert!(register(&mut executor, "R1") == 0x8000_1234, "R1 == 0x8000_1234");

    set_register(&mut executor, "R1", 0x80001234);
    set_register(&mut executor, "R2", 0x103);
    set_address(&mut executor, 0x100, 32, 0x1234_0003);

    let instruction: V7Operation = V7Operation::StrbImmediate { w: Some(false), index: Some(false), add: false, rt: Register::R1, rn: Register::R2, imm: 2 };

    let instruction = Instruction {
        operations: (16, instruction).convert(false),
        instruction_size: 16,
        max_cycle: CycleCount::Value(0),
    };
    executor
        .execute_instruction(&instruction)
        .expect("Malformed instruction");

    assert!(address(&mut executor, 0x103, 8) == 0x034, "0x103 == 0x034");
    assert!(register(&mut executor, "R2") == 0x103, "R2 == 0x103");
    assert!(register(&mut executor, "R1") == 0x8000_1234, "R1 == 0x8000_1234");
}

#[test]
fn test_strh_imm() {
    let mut executor = v7_executor();

    set_register(&mut executor, "R1", 0x80001234);
    set_register(&mut executor, "R2", 0x100);
    set_address(&mut executor, 0x100, 32, 0x1001);
    set_address(&mut executor, 0x104, 32, 0x1002);
    set_address(&mut executor, 0x108, 32, 0x1003);
    set_address(&mut executor, 0x10C, 32, 0x1003);

    let instruction: V7Operation = V7Operation::StrhImmediate { index: true, add: true, w: true, rt: Register::R1, rn: Register::R2, imm: Some(4) };

    let instruction = Instruction {
        operations: (16, instruction).convert(false),
        instruction_size: 16,
        max_cycle: CycleCount::Value(0),
    };
    executor
        .execute_instruction(&instruction)
        .expect("Malformed instruction");

    assert!(address(&mut executor, 0x104, 32) == 0x1234, "0x104 == 0x1234");
    assert!(address(&mut executor, 0x104, 16) == 0x1234, "0x104 == 0x1234");
    assert!(register(&mut executor, "R2") == 0x104, "R2 == 0x104");

    set_register(&mut executor, "R1", 0x80001234);
    set_register(&mut executor, "R2", 0x100);
    set_address(&mut executor, 0x100, 32, 0x1001);
    set_address(&mut executor, 0x104, 32, 0x1002);
    set_address(&mut executor, 0x108, 32, 0x1003);
    set_address(&mut executor, 0x10C, 32, 0x1003);

    let instruction: V7Operation = V7Operation::StrhImmediate { index: true, add: true, w: false, rt: Register::R1, rn: Register::R2, imm: Some(4) };

    let instruction = Instruction {
        operations: (16, instruction).convert(false),
        instruction_size: 16,
        max_cycle: CycleCount::Value(0),
    };
    executor
        .execute_instruction(&instruction)
        .expect("Malformed instruction");

    assert!(address(&mut executor, 0x104, 32) == 0x1234, "0x104 == 0x1234");
    assert!(address(&mut executor, 0x104, 16) == 0x1234, "0x104 == 0x1234");
    assert!(register(&mut executor, "R2") == 0x100, "R2 == 0x100");

    set_register(&mut executor, "R1", 0x80001234);
    set_register(&mut executor, "R2", 0x104);
    set_address(&mut executor, 0x100, 32, 0x1001);
    set_address(&mut executor, 0x104, 32, 0x1002);
    set_address(&mut executor, 0x108, 32, 0x1003);
    set_address(&mut executor, 0x10C, 32, 0x1003);

    let instruction: V7Operation = V7Operation::StrhImmediate { index: true, add: false, w: false, rt: Register::R1, rn: Register::R2, imm: Some(4) };

    let instruction = Instruction {
        operations: (16, instruction).convert(false),
        instruction_size: 16,
        max_cycle: CycleCount::Value(0),
    };
    executor
        .execute_instruction(&instruction)
        .expect("Malformed instruction");

    assert!(address(&mut executor, 0x100, 32) == 0x1234, "0x100 == 0x1234");
    assert!(address(&mut executor, 0x100, 16) == 0x1234, "0x100 == 0x1234");
    assert!(register(&mut executor, "R2") == 0x104, "R2 == 0x104");

    set_register(&mut executor, "R1", 0x80001234);
    set_register(&mut executor, "R2", 0x104);
    set_address(&mut executor, 0x100, 32, 0x1001);
    set_address(&mut executor, 0x104, 32, 0x1002);
    set_address(&mut executor, 0x108, 32, 0x1003);
    set_address(&mut executor, 0x10C, 32, 0x1003);

    let instruction: V7Operation = V7Operation::StrhImmediate { index: false, add: false, w: false, rt: Register::R1, rn: Register::R2, imm: Some(4) };

    let instruction = Instruction {
        operations: (16, instruction).convert(false),
        instruction_size: 16,
        max_cycle: CycleCount::Value(0),
    };
    executor
        .execute_instruction(&instruction)
        .expect("Malformed instruction");

    assert!(address(&mut executor, 0x104, 32) == 0x1234, "0x104 == 0x1234");
    assert!(address(&mut executor, 0x104, 16) == 0x1234, "0x104 == 0x1234");
    assert!(register(&mut executor, "R2") == 0x104, "R2 == 0x104");
}

#[test]
fn test_str_imm() {
    let mut executor = v7_executor();

    set_register(&mut executor, "R1", 0x80001234);
    set_register(&mut executor, "R2", 0x100);
    set_address(&mut executor, 0x100, 32, 0x1001);
    set_address(&mut executor, 0x104, 32, 0x1002);
    set_address(&mut executor, 0x108, 32, 0x1003);
    set_address(&mut executor, 0x10C, 32, 0x1003);

    let instruction: V7Operation = V7Operation::StrImmediate { w: Some(true), index: Some(true), add: true, rt: Register::R1, rn: Register::R2, imm: 4 };

    let instruction = Instruction {
        operations: (16, instruction).convert(false),
        instruction_size: 16,
        max_cycle: CycleCount::Value(0),
    };
    executor
        .execute_instruction(&instruction)
        .expect("Malformed instruction");

    assert!(address(&mut executor, 0x104, 32) == 0x80001234, "0x104 == 0x80001234");
    assert!(register(&mut executor, "R2") == 0x104, "R2 == 0x104");

    set_register(&mut executor, "R1", 0x80001234);
    set_register(&mut executor, "R2", 0x100);
    set_address(&mut executor, 0x100, 32, 0x1001);
    set_address(&mut executor, 0x104, 32, 0x1002);
    set_address(&mut executor, 0x108, 32, 0x1003);
    set_address(&mut executor, 0x10C, 32, 0x1003);

    let instruction: V7Operation = V7Operation::StrImmediate { w: Some(false), index: Some(true), add: true, rt: Register::R1, rn: Register::R2, imm: 4 };

    let instruction = Instruction {
        operations: (16, instruction).convert(false),
        instruction_size: 16,
        max_cycle: CycleCount::Value(0),
    };
    executor
        .execute_instruction(&instruction)
        .expect("Malformed instruction");

    assert!(address(&mut executor, 0x104, 32) == 0x80001234, "0x104 == 0x80001234");
    assert!(register(&mut executor, "R2") == 0x100, "R2 == 0x100");

    set_register(&mut executor, "R1", 0x80001234);
    set_register(&mut executor, "R2", 0x104);
    set_address(&mut executor, 0x100, 32, 0x1001);
    set_address(&mut executor, 0x104, 32, 0x1002);
    set_address(&mut executor, 0x108, 32, 0x1003);
    set_address(&mut executor, 0x10C, 32, 0x1003);

    let instruction: V7Operation = V7Operation::StrImmediate { w: Some(false), index: Some(true), add: false, rt: Register::R1, rn: Register::R2, imm: 4 };

    let instruction = Instruction {
        operations: (16, instruction).convert(false),
        instruction_size: 16,
        max_cycle: CycleCount::Value(0),
    };
    executor
        .execute_instruction(&instruction)
        .expect("Malformed instruction");

    assert!(address(&mut executor, 0x100, 32) == 0x80001234, "0x100 == 0x80001234");
    assert!(register(&mut executor, "R2") == 0x104, "R2 == 0x104");

    set_register(&mut executor, "R1", 0x80001234);
    set_register(&mut executor, "R2", 0x104);
    set_address(&mut executor, 0x100, 32, 0x1001);
    set_address(&mut executor, 0x104, 32, 0x1002);
    set_address(&mut executor, 0x108, 32, 0x1003);
    set_address(&mut executor, 0x10C, 32, 0x1003);

    let instruction: V7Operation = V7Operation::StrImmediate { w: Some(false), index: Some(false), add: false, rt: Register::R1, rn: Register::R2, imm: 4 };

    let instruction = Instruction {
        operations: (16, instruction).convert(false),
        instruction_size: 16,
        max_cycle: CycleCount::Value(0),
    };
    executor
        .execute_instruction(&instruction)
        .expect("Malformed instruction");

    assert!(address(&mut executor, 0x104, 32) == 0x80001234, "0x104 == 0x80001234");
    assert!(register(&mut executor, "R2") == 0x104, "R2 == 0x104");
}

#[test]
fn test_sub_imm_no_flags() {
    let mut executor = v7_executor();

    set_register(&mut executor, "SP", 0x104);
    set_register(&mut executor, "R1", 0x123);
    set_flag(&mut executor, "N", 0);
    set_flag(&mut executor, "Z", 0);
    set_flag(&mut executor, "V", 0);
    set_flag(&mut executor, "C", 0);

    let instruction: V7Operation = V7Operation::SubImmediate { s: Some(SetFlags::Literal(false)), rd: Some(Register::R1), rn: Register::SP, imm: 0x100 };

    let instruction = Instruction {
        operations: (16, instruction).convert(false),
        instruction_size: 16,
        max_cycle: CycleCount::Value(0),
    };
    executor
        .execute_instruction(&instruction)
        .expect("Malformed instruction");

    assert!(register(&mut executor, "R1") == 0x4, "R1 == 0x4");
    assert!(flag(&mut executor, "N") == 0, "N == 0");
    assert!(flag(&mut executor, "Z") == 0, "Z == 0");
    assert!(flag(&mut executor, "V") == 0, "V == 0");
    assert!(flag(&mut executor, "C") == 0, "C == 0");

    set_register(&mut executor, "SP", 0x104);
    set_register(&mut executor, "R1", 0x123);
    set_flag(&mut executor, "N", 0);
    set_flag(&mut executor, "Z", 0);
    set_flag(&mut executor, "V", 0);
    set_flag(&mut executor, "C", 0);

    let instruction: V7Operation = V7Operation::SubSpMinusImmediate { s: Some(false), rd: Some(Register::R1), imm: 0x104 };

    let instruction = Instruction {
        operations: (16, instruction).convert(false),
        instruction_size: 16,
        max_cycle: CycleCount::Value(0),
    };
    executor
        .execute_instruction(&instruction)
        .expect("Malformed instruction");

    assert!(register(&mut executor, "R1") == 0, "R1 == 0");
    assert!(flag(&mut executor, "N") == 0, "N == 0");
    assert!(flag(&mut executor, "Z") == 0, "Z == 0");
    assert!(flag(&mut executor, "V") == 0, "V == 0");
    assert!(flag(&mut executor, "C") == 0, "C == 0");

    set_register(&mut executor, "SP", 0x104);
    set_register(&mut executor, "R1", 0x123);
    set_flag(&mut executor, "N", 0);
    set_flag(&mut executor, "Z", 1);
    set_flag(&mut executor, "V", 0);
    set_flag(&mut executor, "C", 0);

    let instruction: V7Operation = V7Operation::SubImmediate { s: Some(SetFlags::Literal(false)), rd: Some(Register::R1), rn: Register::SP, imm: 0x104 };

    let instruction = Instruction {
        operations: (16, instruction).convert(false),
        instruction_size: 16,
        max_cycle: CycleCount::Value(0),
    };
    executor
        .execute_instruction(&instruction)
        .expect("Malformed instruction");

    assert!(register(&mut executor, "R1") == 0, "R1 == 0");
    assert!(flag(&mut executor, "N") == 0, "N == 0");
    assert!(flag(&mut executor, "Z") == 1, "Z == 1");
    assert!(flag(&mut executor, "V") == 0, "V == 0");
    assert!(flag(&mut executor, "C") == 0, "C == 0");
}

#[test]
fn test_sub_imm_set_flags() {
    let mut executor = v7_executor();

    set_register(&mut executor, "SP", 0x104);
    set_register(&mut executor, "R1", 0x123);
    set_flag(&mut executor, "N", 0);
    set_flag(&mut executor, "Z", 0);
    set_flag(&mut executor, "V", 0);
    set_flag(&mut executor, "C", 0);

    let instruction: V7Operation = V7Operation::SubImmediate { s: Some(SetFlags::InITBlock(false)), rd: Some(Register::R1), rn: Register::SP, imm: 0x100 };

    let instruction = Instruction {
        operations: (16, instruction).convert(false),
        instruction_size: 16,
        max_cycle: CycleCount::Value(0),
    };
    executor
        .execute_instruction(&instruction)
        .expect("Malformed instruction");

    assert!(register(&mut executor, "R1") == 0x4, "R1 == 0x4");
    assert!(flag(&mut executor, "N") == 0, "N == 0");
    assert!(flag(&mut executor, "Z") == 0, "Z == 0");
    assert!(flag(&mut executor, "V") == 0, "V == 0");
    assert!(flag(&mut executor, "C") == 1, "C == 1");

    set_register(&mut executor, "SP", 0x104);
    set_register(&mut executor, "R1", 0x123);
    set_flag(&mut executor, "N", 0);
    set_flag(&mut executor, "Z", 0);
    set_flag(&mut executor, "V", 0);
    set_flag(&mut executor, "C", 0);

    let instruction: V7Operation = V7Operation::SubImmediate { s: Some(SetFlags::InITBlock(false)), rd: Some(Register::R1), rn: Register::SP, imm: 0x104 };

    let instruction = Instruction {
        operations: (16, instruction).convert(false),
        instruction_size: 16,
        max_cycle: CycleCount::Value(0),
    };
    executor
        .execute_instruction(&instruction)
        .expect("Malformed instruction");

    assert!(register(&mut executor, "R1") == 0, "R1 == 0");
    assert!(flag(&mut executor, "N") == 0, "N == 0");
    assert!(flag(&mut executor, "Z") == 1, "Z == 1");
    assert!(flag(&mut executor, "V") == 0, "V == 0");
    assert!(flag(&mut executor, "C") == 1, "C == 1");
}

#[test]
fn test_sub_reg_no_flags() {
    let mut executor = v7_executor();

    set_register(&mut executor, "SP", 0x104);
    set_register(&mut executor, "R1", 0x123);
    set_register(&mut executor, "R2", 0x100);
    set_flag(&mut executor, "N", 0);
    set_flag(&mut executor, "Z", 0);
    set_flag(&mut executor, "V", 0);
    set_flag(&mut executor, "C", 0);

    let instruction: V7Operation = V7Operation::SubRegister { s: Some(SetFlags::Literal(false)), rd: Some(Register::R1), rn: Register::SP, rm: Register::R2, shift: None };

    let instruction = Instruction {
        operations: (16, instruction).convert(false),
        instruction_size: 16,
        max_cycle: CycleCount::Value(0),
    };
    executor
        .execute_instruction(&instruction)
        .expect("Malformed instruction");

    assert!(register(&mut executor, "R1") == 0x4, "R1 == 0x4");
    assert!(flag(&mut executor, "N") == 0, "N == 0");
    assert!(flag(&mut executor, "Z") == 0, "Z == 0");
    assert!(flag(&mut executor, "V") == 0, "V == 0");
    assert!(flag(&mut executor, "C") == 0, "C == 0");

    set_register(&mut executor, "SP", 0x104);
    set_register(&mut executor, "R1", 0x123);
    set_register(&mut executor, "R2", 0x104);
    set_flag(&mut executor, "N", 0);
    set_flag(&mut executor, "Z", 0);
    set_flag(&mut executor, "V", 0);
    set_flag(&mut executor, "C", 0);

    let instruction: V7Operation = V7Operation::SubRegister { s: Some(SetFlags::Literal(false)), rd: Some(Register::R1), rn: Register::SP, rm: Register::R2, shift: None };

    let instruction = Instruction {
        operations: (16, instruction).convert(false),
        instruction_size: 16,
        max_cycle: CycleCount::Value(0),
    };
    executor
        .execute_instruction(&instruction)
        .expect("Malformed instruction");

    assert!(register(&mut executor, "R1") == 0, "R1 == 0");
    assert!(flag(&mut executor, "N") == 0, "N == 0");
    assert!(flag(&mut executor, "Z") == 0, "Z == 0");
    assert!(flag(&mut executor, "V") == 0, "V == 0");
    assert!(flag(&mut executor, "C") == 0, "C == 0");

    set_register(&mut executor, "SP", 0x104);
    set_register(&mut executor, "R1", 0x123);
    set_register(&mut executor, "R2", ((0x104 >> 1)) as u32);
    set_flag(&mut executor, "N", 0);
    set_flag(&mut executor, "Z", 1);
    set_flag(&mut executor, "V", 0);
    set_flag(&mut executor, "C", 0);

    let instruction: V7Operation = V7Operation::SubRegister { s: Some(SetFlags::Literal(false)), rd: Some(Register::R1), rn: Register::SP, rm: Register::R2, shift: Some(ImmShift {
            shift_n: 1,
            shift_t: Shift::Lsl,
        }) };

    let instruction = Instruction {
        operations: (16, instruction).convert(false),
        instruction_size: 16,
        max_cycle: CycleCount::Value(0),
    };
    executor
        .execute_instruction(&instruction)
        .expect("Malformed instruction");

    assert!(register(&mut executor, "R1") == 0, "R1 == 0");
    assert!(flag(&mut executor, "N") == 0, "N == 0");
    assert!(flag(&mut executor, "Z") == 1, "Z == 1");
    assert!(flag(&mut executor, "V") == 0, "V == 0");
    assert!(flag(&mut executor, "C") == 0, "C == 0");
}

#[test]
fn test_sub_reg_set_flags() {
    let mut executor = v7_executor();

    set_register(&mut executor, "SP", 0x104);
    set_register(&mut executor, "R1", 0x123);
    set_register(&mut executor, "R2", 0x100);
    set_flag(&mut executor, "N", 0);
    set_flag(&mut executor, "Z", 0);
    set_flag(&mut executor, "V", 0);
    set_flag(&mut executor, "C", 0);

    let instruction: V7Operation = V7Operation::SubRegister { s: Some(SetFlags::Literal(true)), rd: Some(Register::R1), rn: Register::SP, rm: Register::R2, shift: None };

    let instruction = Instruction {
        operations: (16, instruction).convert(false),
        instruction_size: 16,
        max_cycle: CycleCount::Value(0),
    };
    executor
        .execute_instruction(&instruction)
        .expect("Malformed instruction");

    assert!(register(&mut executor, "R1") == 0x4, "R1 == 0x4");
    assert!(flag(&mut executor, "N") == 0, "N == 0");
    assert!(flag(&mut executor, "Z") == 0, "Z == 0");
    assert!(flag(&mut executor, "V") == 0, "V == 0");
    assert!(flag(&mut executor, "C") == 1, "C == 1");

    set_register(&mut executor, "SP", 0x104);
    set_register(&mut executor, "R1", 0x123);
    set_register(&mut executor, "R2", 0x104);
    set_flag(&mut executor, "N", 0);
    set_flag(&mut executor, "Z", 0);
    set_flag(&mut executor, "V", 0);
    set_flag(&mut executor, "C", 0);

    let instruction: V7Operation = V7Operation::SubRegister { s: Some(SetFlags::Literal(true)), rd: Some(Register::R1), rn: Register::SP, rm: Register::R2, shift: None };

    let instruction = Instruction {
        operations: (16, instruction).convert(false),
        instruction_size: 16,
        max_cycle: CycleCount::Value(0),
    };
    executor
        .execute_instruction(&instruction)
        .expect("Malformed instruction");

    assert!(register(&mut executor, "R1") == 0, "R1 == 0");
    assert!(flag(&mut executor, "N") == 0, "N == 0");
    assert!(flag(&mut executor, "Z") == 1, "Z == 1");
    assert!(flag(&mut executor, "V") == 0, "V == 0");
    assert!(flag(&mut executor, "C") == 1, "C == 1");
}

#[test]
fn test_sub_sp_imm_no_flags() {
    let mut executor = v7_executor();

    set_register(&mut executor, "SP", 0x104);
    set_register(&mut executor, "R1", 0x123);
    set_flag(&mut executor, "N", 0);
    set_flag(&mut executor, "Z", 0);
    set_flag(&mut executor, "V", 0);
    set_flag(&mut executor, "C", 0);

    let instruction: V7Operation = V7Operation::SubSpMinusImmediate { s: Some(false), rd: Some(Register::R1), imm: 0x100 };

    let instruction = Instruction {
        operations: (16, instruction).convert(false),
        instruction_size: 16,
        max_cycle: CycleCount::Value(0),
    };
    executor
        .execute_instruction(&instruction)
        .expect("Malformed instruction");

    assert!(register(&mut executor, "R1") == 0x4, "R1 == 0x4");
    assert!(flag(&mut executor, "N") == 0, "N == 0");
    assert!(flag(&mut executor, "Z") == 0, "Z == 0");
    assert!(flag(&mut executor, "V") == 0, "V == 0");
    assert!(flag(&mut executor, "C") == 0, "C == 0");

    set_register(&mut executor, "SP", 0x104);
    set_register(&mut executor, "R1", 0x123);
    set_flag(&mut executor, "N", 0);
    set_flag(&mut executor, "Z", 0);
    set_flag(&mut executor, "V", 0);
    set_flag(&mut executor, "C", 0);

    let instruction: V7Operation = V7Operation::SubSpMinusImmediate { s: Some(false), rd: Some(Register::R1), imm: 0x104 };

    let instruction = Instruction {
        operations: (16, instruction).convert(false),
        instruction_size: 16,
        max_cycle: CycleCount::Value(0),
    };
    executor
        .execute_instruction(&instruction)
        .expect("Malformed instruction");

    assert!(register(&mut executor, "R1") == 0, "R1 == 0");
    assert!(flag(&mut executor, "N") == 0, "N == 0");
    assert!(flag(&mut executor, "Z") == 0, "Z == 0");
    assert!(flag(&mut executor, "V") == 0, "V == 0");
    assert!(flag(&mut executor, "C") == 0, "C == 0");

    set_register(&mut executor, "SP", 0x104);
    set_register(&mut executor, "R1", 0x123);
    set_flag(&mut executor, "N", 0);
    set_flag(&mut executor, "Z", 1);
    set_flag(&mut executor, "V", 0);
    set_flag(&mut executor, "C", 0);

    let instruction: V7Operation = V7Operation::SubSpMinusImmediate { s: Some(false), rd: Some(Register::R1), imm: 0x104 };

    let instruction = Instruction {
        operations: (16, instruction).convert(false),
        instruction_size: 16,
        max_cycle: CycleCount::Value(0),
    };
    executor
        .execute_instruction(&instruction)
        .expect("Malformed instruction");

    assert!(register(&mut executor, "R1") == 0, "R1 == 0");
    assert!(flag(&mut executor, "N") == 0, "N == 0");
    assert!(flag(&mut executor, "Z") == 1, "Z == 1");
    assert!(flag(&mut executor, "V") == 0, "V == 0");
    assert!(flag(&mut executor, "C") == 0, "C == 0");
}

#[test]
fn test_sub_sp_imm_set_flags() {
    let mut executor = v7_executor();

    set_register(&mut executor, "SP", 0x104);
    set_register(&mut executor, "R1", 0x123);
    set_flag(&mut executor, "N", 0);
    set_flag(&mut executor, "Z", 0);
    set_flag(&mut executor, "V", 0);
    set_flag(&mut executor, "C", 0);

    let instruction: V7Operation = V7Operation::SubSpMinusImmediate { s: Some(true), rd: Some(Register::R1), imm: 0x100 };

    let instruction = Instruction {
        operations: (16, instruction).convert(false),
        instruction_size: 16,
        max_cycle: CycleCount::Value(0),
    };
    executor
        .execute_instruction(&instruction)
        .expect("Malformed instruction");

    assert!(register(&mut executor, "R1") == 0x4, "R1 == 0x4");
    assert!(flag(&mut executor, "N") == 0, "N == 0");
    assert!(flag(&mut executor, "Z") == 0, "Z == 0");
    assert!(flag(&mut executor, "V") == 0, "V == 0");
    assert!(flag(&mut executor, "C") == 1, "C == 1");

    set_register(&mut executor, "SP", 0x104);
    set_register(&mut executor, "R1", 0x123);
    set_flag(&mut executor, "N", 0);
    set_flag(&mut executor, "Z", 0);
    set_flag(&mut executor, "V", 0);
    set_flag(&mut executor, "C", 0);

    let instruction: V7Operation = V7Operation::SubSpMinusImmediate { s: Some(true), rd: Some(Register::R1), imm: 0x104 };

    let instruction = Instruction {
        operations: (16, instruction).convert(false),
        instruction_size: 16,
        max_cycle: CycleCount::Value(0),
    };
    executor
        .execute_instruction(&instruction)
        .expect("Malformed instruction");

    assert!(register(&mut executor, "R1") == 0, "R1 == 0");
    assert!(flag(&mut executor, "N") == 0, "N == 0");
    assert!(flag(&mut executor, "Z") == 1, "Z == 1");
    assert!(flag(&mut executor, "V") == 0, "V == 0");
    assert!(flag(&mut executor, "C") == 1, "C == 1");
}

#[test]
fn test_sub_uxth() {
    let mut executor = v7_executor();

    set_register(&mut executor, "R1", 0x123);
    set_register(&mut executor, "R2", 0x123);
    set_flag(&mut executor, "N", 0);
    set_flag(&mut executor, "Z", 0);
    set_flag(&mut executor, "V", 0);
    set_flag(&mut executor, "C", 0);

    let instruction: V7Operation = V7Operation::Uxth { rd: Register::R1, rm: Register::R2, rotation: Some(1) };

    let instruction = Instruction {
        operations: (16, instruction).convert(false),
        instruction_size: 16,
        max_cycle: CycleCount::Value(0),
    };
    executor
        .execute_instruction(&instruction)
        .expect("Malformed instruction");

    assert!(register(&mut executor, "R1") == 0x91, "R1 == 0x91");
    assert!(flag(&mut executor, "N") == 0, "N == 0");
    assert!(flag(&mut executor, "Z") == 0, "Z == 0");
    assert!(flag(&mut executor, "V") == 0, "V == 0");
    assert!(flag(&mut executor, "C") == 0, "C == 0");

    set_register(&mut executor, "R1", 0x123);
    set_register(&mut executor, "R2", 0x123);
    set_flag(&mut executor, "N", 0);
    set_flag(&mut executor, "Z", 0);
    set_flag(&mut executor, "V", 0);
    set_flag(&mut executor, "C", 0);

    let instruction: V7Operation = V7Operation::Uxth { rd: Register::R1, rm: Register::R2, rotation: None };

    let instruction = Instruction {
        operations: (16, instruction).convert(false),
        instruction_size: 16,
        max_cycle: CycleCount::Value(0),
    };
    executor
        .execute_instruction(&instruction)
        .expect("Malformed instruction");

    assert!(register(&mut executor, "R1") == 0x123, "R1 == 0x123");
    assert!(flag(&mut executor, "N") == 0, "N == 0");
    assert!(flag(&mut executor, "Z") == 0, "Z == 0");
    assert!(flag(&mut executor, "V") == 0, "V == 0");
    assert!(flag(&mut executor, "C") == 0, "C == 0");
}

#[test]
fn test_tb() {
    let mut executor = v7_executor();

    set_register(&mut executor, "R1", 0x123);
    set_register(&mut executor, "R2", 0x1);
    set_address(&mut executor, 0x123, 8, 0x23);
    set_address(&mut executor, 0x124, 8, 0x22);
    set_address(&mut executor, 0x125, 8, 0x21);
    set_flag(&mut executor, "N", 0);
    set_flag(&mut executor, "Z", 0);
    set_flag(&mut executor, "V", 0);
    set_flag(&mut executor, "C", 0);

    let instruction: V7Operation = V7Operation::Tb { is_tbh: Some(false), rn: Register::R1, rm: Register::R2 };

    let instruction = Instruction {
        operations: (16, instruction).convert(false),
        instruction_size: 16,
        max_cycle: CycleCount::Value(0),
    };
    executor
        .execute_instruction(&instruction)
        .expect("Malformed instruction");

    assert!(register(&mut executor, "PC") == 0x48, "PC == 0x48");

    set_register(&mut executor, "PC", 0);
    set_register(&mut executor, "R1", 0x122);
    set_register(&mut executor, "R2", 0x1);
    set_address(&mut executor, 0x122, 16, 0x23);
    set_address(&mut executor, 0x124, 16, 0x22);
    set_address(&mut executor, 0x126, 16, 0x21);

    let instruction: V7Operation = V7Operation::Tb { is_tbh: Some(true), rn: Register::R1, rm: Register::R2 };

    let instruction = Instruction {
        operations: (16, instruction).convert(false),
        instruction_size: 16,
        max_cycle: CycleCount::Value(0),
    };
    executor
        .execute_instruction(&instruction)
        .expect("Malformed instruction");

    assert!(register(&mut executor, "PC") == 0x48, "PC == 0x48");
}
