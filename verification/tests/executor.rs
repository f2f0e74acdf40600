use symex::arch::arm::isa::ArmIsa;
use symex::general_assembly::condition::Condition;
use symex::general_assembly::operand::{DataWord, Operand};
use symex::general_assembly::operation::Operation;
use symex::smt::expr::DContext;
use symex::smt::solver::DSolver;
use symex::symex::ga_executor::GAExecutor;
use symex::symex::instruction::{CycleCount, Instruction};
use symex::symex::named::NamedExprs;
use symex::symex::project::Project;
use symex::symex::state::GAState;
use symex::symex::types::{Endianness, WordSize};
use symex::symex::vm::VM;

fn empty_project() -> &'static Project {
    let project = Box::new(Project::manual_project(
        vec![],
        0,
        0,
        WordSize::Bit32,
        Endianness::Little,
        ArmIsa::ArmV6M,
        vec![],
        vec![],
        vec![],
        vec![],
        vec![],
        vec![],
        vec![],
        vec![],
    ));
    Box::leak(project)
}

fn setup_test_vm() -> VM<'static> {
    let project = empty_project();
    let context = DContext::new();
    let solver = DSolver::new(&context);
    let state = GAState::create_test_state(project, &context, solver, 0, u32::MAX as u64);
    VM::new_with_state(project, state)
}

fn setup_executor() -> GAExecutor<'static> {
    let mut vm = setup_test_vm();
    let project = vm.project;
    GAExecutor::from_state(vm.paths.get_path().unwrap().state, project)
}

#[test]
fn test_move() {
    let mut executor = setup_executor();
    let mut local = NamedExprs::new();
    let operand_r0 = Operand::Register("R0".to_owned());

    // move imm into reg
    let operation = Operation::Move {
        destination: operand_r0.clone(),
        source: Operand::Immediate(DataWord::Word32(42)),
    };
    executor.execute_operation(&operation, &mut local).ok();

    let r0 = executor
        .get_operand_value(&operand_r0, &local)
        .unwrap()
        .get_constant()
        .unwrap();
    assert_eq!(r0, 42);

    // move reg to local
    let local_r0 = Operand::Local("R0".to_owned());
    let operation = Operation::Move {
        destination: local_r0.clone(),
        source: operand_r0.clone(),
    };
    executor.execute_operation(&operation, &mut local).ok();

    let r0 = executor
        .get_operand_value(&local_r0, &local)
        .unwrap()
        .get_constant()
        .unwrap();
    assert_eq!(r0, 42);

    // move immidiate to local memmory addr
    let imm = Operand::Immediate(DataWord::Word32(23));
    let memmory_op = Operand::AddressInLocal("R0".to_owned(), 32);
    let operation = Operation::Move {
        destination: memmory_op.clone(),
        source: imm.clone(),
    };
    executor.execute_operation(&operation, &mut local).ok();

    let dexpr_addr = executor.get_dexpr_from_dataword(DataWord::Word32(42));
    let in_memmory_value = executor
        .state
        .read_word_from_memory(&dexpr_addr)
        .unwrap()
        .get_constant()
        .unwrap();

    assert_eq!(in_memmory_value, 23);

    // move from memmory to a local
    let operation = Operation::Move {
        destination: local_r0.clone(),
        source: memmory_op.clone(),
    };
    executor.execute_operation(&operation, &mut local).ok();

    let local_value = executor
        .get_operand_value(&local_r0, &local)
        .unwrap()
        .get_constant()
        .unwrap();

    assert_eq!(local_value, 23);
}

#[test]
fn test_add() {
    let mut executor = setup_executor();
    let mut local = NamedExprs::new();

    let r0 = Operand::Register("R0".to_owned());
    let imm_42 = Operand::Immediate(DataWord::Word32(42));
    let imm_umax = Operand::Immediate(DataWord::Word32(u32::MAX));
    let imm_16 = Operand::Immediate(DataWord::Word32(16));
    let imm_minus70 = Operand::Immediate(DataWord::Word32(-70i32 as u32));

    // test simple add
    let operation = Operation::Add {
        destination: r0.clone(),
        operand1: imm_42.clone(),
        operand2: imm_16.clone(),
    };
    executor.execute_operation(&operation, &mut local).ok();

    let r0_value = executor.get_operand_value(&r0, &local).unwrap().get_constant().unwrap();
    assert_eq!(r0_value, 58);

    // test add with same operand and destination
    let operation = Operation::Add {
        destination: r0.clone(),
        operand1: r0.clone(),
        operand2: imm_16.clone(),
    };
    executor.execute_operation(&operation, &mut local).ok();

    let r0_value = executor.get_operand_value(&r0, &local).unwrap().get_constant().unwrap();
    assert_eq!(r0_value, 74);

    // test add with negative number
    let operation = Operation::Add {
        destination: r0.clone(),
        operand1: imm_42.clone(),
        operand2: imm_minus70.clone(),
    };
    executor.execute_operation(&operation, &mut local).ok();

    let r0_value = executor.get_operand_value(&r0, &local).unwrap().get_constant().unwrap();
    assert_eq!(r0_value, (-28i32 as u32) as u64);

    // test add overflow
    let operation = Operation::Add {
        destination: r0.clone(),
        operand1: imm_42.clone(),
        operand2: imm_umax.clone(),
    };
    executor.execute_operation(&operation, &mut local).ok();

    let r0_value = executor.get_operand_value(&r0, &local).unwrap().get_constant().unwrap();
    assert_eq!(r0_value, 41);
}

#[test]
fn test_adc() {
    let mut executor = setup_executor();
    let mut local = NamedExprs::new();

    let imm_42 = Operand::Immediate(DataWord::Word32(42));
    let imm_12 = Operand::Immediate(DataWord::Word32(12));
    let imm_umax = Operand::Immediate(DataWord::Word32(u32::MAX));
    let r0 = Operand::Register("R0".to_owned());

    let true_dexpr = executor.state.ctx.from_bool(true);
    let false_dexpr = executor.state.ctx.from_bool(false);

    // test normal add
    executor.state.set_flag("C".to_owned(), false_dexpr.clone());
    let operation = Operation::Adc {
        destination: r0.clone(),
        operand1: imm_42.clone(),
        operand2: imm_12.clone(),
    };

    executor.execute_operation(&operation, &mut local).ok();
    let result = executor.get_operand_value(&r0, &local).unwrap().get_constant().unwrap();

    assert_eq!(result, 54);

    // test add with overflow
    executor.state.set_flag("C".to_owned(), false_dexpr.clone());
    let operation = Operation::Adc {
        destination: r0.clone(),
        operand1: imm_umax.clone(),
        operand2: imm_12.clone(),
    };

    executor.execute_operation(&operation, &mut local).ok();
    let result = executor.get_operand_value(&r0, &local).unwrap().get_constant().unwrap();

    assert_eq!(result, 11);

    // test add with carry in
    executor.state.set_flag("C".to_owned(), true_dexpr.clone());
    let operation = Operation::Adc {
        destination: r0.clone(),
        operand1: imm_42.clone(),
        operand2: imm_12.clone(),
    };

    executor.execute_operation(&operation, &mut local).ok();
    let result = executor.get_operand_value(&r0, &local).unwrap().get_constant().unwrap();

    assert_eq!(result, 55);
}

#[test]
fn test_sub() {
    let mut executor = setup_executor();
    let mut local = NamedExprs::new();

    let r0 = Operand::Register("R0".to_owned());
    let imm_42 = Operand::Immediate(DataWord::Word32(42));
    let imm_imin = Operand::Immediate(DataWord::Word32(i32::MIN as u32));
    let imm_16 = Operand::Immediate(DataWord::Word32(16));
    let imm_minus70 = Operand::Immediate(DataWord::Word32(-70i32 as u32));

    // test simple sub
    let operation = Operation::Sub {
        destination: r0.clone(),
        operand1: imm_42.clone(),
        operand2: imm_16.clone(),
    };
    executor.execute_operation(&operation, &mut local).ok();

    let r0_value = executor.get_operand_value(&r0, &local).unwrap().get_constant().unwrap();
    assert_eq!(r0_value, 26);

    // test sub with same operand and destination
    let operation = Operation::Sub {
        destination: r0.clone(),
        operand1: r0.clone(),
        operand2: imm_16.clone(),
    };
    executor.execute_operation(&operation, &mut local).ok();

    let r0_value = executor.get_operand_value(&r0, &local).unwrap().get_constant().unwrap();
    assert_eq!(r0_value, 10);

    // test sub with negative number
    let operation = Operation::Sub {
        destination: r0.clone(),
        operand1: imm_42.clone(),
        operand2: imm_minus70.clone(),
    };
    executor.execute_operation(&operation, &mut local).ok();

    let r0_value = executor.get_operand_value(&r0, &local).unwrap().get_constant().unwrap();
    assert_eq!(r0_value, 112);

    // test sub underflow
    let operation = Operation::Sub {
        destination: r0.clone(),
        operand1: imm_42.clone(),
        operand2: imm_imin.clone(),
    };
    executor.execute_operation(&operation, &mut local).ok();

    let r0_value = executor.get_operand_value(&r0, &local).unwrap().get_constant().unwrap();
    assert_eq!(r0_value, ((i32::MIN) as u32 + 42) as u64);
}

#[test]
fn executor_test_mul() {
    let mut executor = setup_executor();
    let mut local = NamedExprs::new();

    let r0 = Operand::Register("R0".to_owned());
    let imm_42 = Operand::Immediate(DataWord::Word32(42));
    let imm_minus_42 = Operand::Immediate(DataWord::Word32(-42i32 as u32));
    let imm_16 = Operand::Immediate(DataWord::Word32(16));
    let imm_minus_16 = Operand::Immediate(DataWord::Word32(-16i32 as u32));

    // simple multiplication
    let operation = Operation::Mul {
        destination: r0.clone(),
        operand1: imm_42.clone(),
        operand2: imm_16.clone(),
    };
    executor.execute_operation(&operation, &mut local).ok();

    let r0_value = executor.get_operand_value(&r0, &local).unwrap().get_constant().unwrap();
    assert_eq!(r0_value, 672);

    // multiplication right minus
    let operation = Operation::Mul {
        destination: r0.clone(),
        operand1: imm_42.clone(),
        operand2: imm_minus_16.clone(),
    };
    executor.execute_operation(&operation, &mut local).ok();

    let r0_value = executor.get_operand_value(&r0, &local).unwrap().get_constant().unwrap();
    assert_eq!(r0_value as u32, -672i32 as u32);

    // multiplication left minus
    let operation = Operation::Mul {
        destination: r0.clone(),
        operand1: imm_minus_42.clone(),
        operand2: imm_16.clone(),
    };
    executor.execute_operation(&operation, &mut local).ok();

    let r0_value = executor.get_operand_value(&r0, &local).unwrap().get_constant().unwrap();
    assert_eq!(r0_value as u32, -672i32 as u32);

    // multiplication both minus
    let operation = Operation::Mul {
        destination: r0.clone(),
        operand1: imm_minus_42.clone(),
        operand2: imm_minus_16.clone(),
    };
    executor.execute_operation(&operation, &mut local).ok();

    let r0_value = executor.get_operand_value(&r0, &local).unwrap().get_constant().unwrap();
    assert_eq!(r0_value, 672);
}

#[test]
fn test_set_v_flag() {
    let mut executor = setup_executor();
    let mut local = NamedExprs::new();

    let imm_42 = Operand::Immediate(DataWord::Word32(42));
    let imm_12 = Operand::Immediate(DataWord::Word32(12));
    let imm_imin = Operand::Immediate(DataWord::Word32(i32::MIN as u32));
    let imm_imax = Operand::Immediate(DataWord::Word32(i32::MAX as u32));

    // no overflow
    let operation = Operation::SetVFlag {
        operand1: imm_42.clone(),
        operand2: imm_12.clone(),
        sub: true,
        carry: false,
    };
    executor.execute_operation(&operation, &mut local).ok();

    let v_flag = executor.state.get_flag("V").unwrap().get_constant_bool().unwrap();
    assert!(!v_flag);

    // overflow
    let operation = Operation::SetVFlag {
        operand1: imm_imax.clone(),
        operand2: imm_12.clone(),
        sub: false,
        carry: false,
    };
    executor.execute_operation(&operation, &mut local).ok();

    let v_flag = executor.state.get_flag("V").unwrap().get_constant_bool().unwrap();
    assert!(v_flag);

    // underflow
    let operation = Operation::SetVFlag {
        operand1: imm_imin.clone(),
        operand2: imm_12.clone(),
        sub: true,
        carry: false,
    };
    executor.execute_operation(&operation, &mut local).ok();

    let v_flag = executor.state.get_flag("V").unwrap().get_constant_bool().unwrap();
    assert!(v_flag);
}

#[test]
fn test_conditional_execution() {
    let mut executor = setup_executor();
    let imm_0 = Operand::Immediate(DataWord::Word32(0));
    let imm_1 = Operand::Immediate(DataWord::Word32(1));
    let local = NamedExprs::new();
    let r0 = Operand::Register("R0".to_owned());

    let program1 = vec![
        Instruction {
            instruction_size: 32,
            operations: vec![Operation::SetZFlag(imm_0.clone())],
            max_cycle: CycleCount::Value(0),
        },
        Instruction {
            instruction_size: 32,
            operations: vec![Operation::ConditionalExecution {
                conditions: vec![Condition::EQ, Condition::NE],
            }],
            max_cycle: CycleCount::Value(0),
        },
        Instruction {
            instruction_size: 32,
            operations: vec![Operation::Move {
                destination: r0.clone(),
                source: imm_1,
            }],
            max_cycle: CycleCount::Value(0),
        },
        Instruction {
            instruction_size: 32,
            operations: vec![Operation::Move {
                destination: r0.clone(),
                source: imm_0,
            }],
            max_cycle: CycleCount::Value(0),
        },
    ];

    for p in program1 {
        executor.execute_instruction(&p).ok();
    }

    let r0_value = executor.get_operand_value(&r0, &local).ok().unwrap().get_constant().unwrap();
    assert_eq!(r0_value, 1);
}
