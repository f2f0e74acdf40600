use symex::arch::arm::isa::{arm_isa, Arm, ArmIsa, ArmV6M, ArmV7EM};
use symex::arch::arm::registers::{ArmCondition, Register};
use symex::arch::arm::v6::instruction::{InstructionWidth, V6Instruction, V6Operation};
use symex::arch::arm::v6::timing::{cycle_count_m0_core, cycle_count_m0plus_core};
use symex::arch::arm::v6::translate::translate_v6;
use symex::arch::errors::{ArchError, ParseError};
use symex::general_assembly::condition::Condition;
use symex::general_assembly::operand::{DataHalfWord, DataWord, Operand, RawDataWord};
use symex::general_assembly::operation::Operation;
use symex::memory::{to_bytes, MemoryError};
use symex::smt::expr::DContext;
use symex::smt::solver::{DSolver, Solutions};
use symex::symex::ga_executor::{GAExecutor, PathResult};
use symex::symex::instruction::{CycleCount, CycleFunction, Instruction};
use symex::symex::named::NamedExprs;
use symex::symex::path_selection::{DFSPathSelection, Path};
use symex::symex::patterns::construct_pc_hooks;
use symex::symex::project::{
    construct_memory_read_hooks, MemoryHookAddress, MemoryReadHook, PCHook, Project, ProjectError,
    RegisterReadHook,
};
use symex::symex::run_config::{default_pc_hooks, RunConfig};
use symex::symex::segments::Segments;
use symex::symex::state::GAState;
use symex::symex::types::{Endianness, GAError, WordSize};
use symex::symex::vm::VM;

fn project_with(code: Vec<u8>, start: u64, endianness: Endianness) -> Project {
    let end = start + code.len() as u64;
    Project::manual_project(
        code,
        start,
        end,
        WordSize::Bit32,
        endianness,
        ArmIsa::ArmV6M,
        vec![("main".to_owned(), start), ("_stack_start".to_owned(), 0x2000_1000)],
        vec![],
        vec![],
        vec![],
        vec![],
        vec![],
        vec![],
        vec![],
    )
}

fn leak(project: Project) -> &'static Project {
    Box::leak(Box::new(project))
}

fn executor_on(project: &'static Project) -> GAExecutor<'static> {
    let ctx = DContext::new();
    let solver = DSolver::new(&ctx);
    let state = GAState::create_test_state(project, &ctx, solver, 0x100, 0x2000_1000);
    GAExecutor::from_state(state, project)
}

fn v6(operation: V6Operation) -> V6Instruction {
    V6Instruction { width: InstructionWidth::Bit16, operation }
}

#[test]
fn translate_mov_immediate() {
    let i = translate_v6(&v6(V6Operation::MOVImm { d: Register::R0, imm: 5 })).unwrap();
    assert_eq!(i.instruction_size, 16);
    assert_eq!(i.operations.len(), 3);
    assert_eq!(i.max_cycle, CycleCount::Value(1));
    assert!(matches!(&i.operations[0], Operation::Move { destination: Operand::Register(r), source: Operand::Immediate(DataWord::Word32(5)) } if r == "R0"));
}

#[test]
fn translate_branch_link_is_32_bits() {
    let i = translate_v6(&v6(V6Operation::BL { imm: 8 })).unwrap();
    assert_eq!(i.instruction_size, 32);
    assert_eq!(i.operations.len(), 4);
    assert_eq!(i.max_cycle, CycleCount::Value(3));
}

#[test]
fn translate_unsupported_is_refused() {
    let r = translate_v6(&v6(V6Operation::STRImm { imm: 0, n: Register::R1, t: Register::R0 }));
    assert_eq!(r.err(), Some(ArchError::ParsingError(ParseError::InvalidInstruction)));
    let r = translate_v6(&v6(V6Operation::WFI));
    assert!(r.is_err());
}

#[test]
fn translate_push_saves_each_register() {
    let i = translate_v6(&v6(V6Operation::PUSH { reg_list: vec![Register::R4, Register::LR] })).unwrap();
    // one address computation, a store and an increment per register, and the stack update
    assert_eq!(i.operations.len(), 1 + 2 * 2 + 1);
    assert_eq!(i.max_cycle, CycleCount::Value(3));
}

#[test]
fn cycle_counts_of_the_two_cores() {
    let pop = V6Operation::POP { reg_list: vec![Register::R4, Register::PC] };
    assert_eq!(cycle_count_m0plus_core(&pop), CycleCount::Value(5));
    assert_eq!(cycle_count_m0_core(&pop), CycleCount::Value(6));
    let b = V6Operation::B { cond: ArmCondition::EQ, imm: 4 };
    assert_eq!(
        cycle_count_m0plus_core(&b),
        CycleCount::Function(CycleFunction::Branch { taken: 2, not_taken: 1 })
    );
    assert_eq!(
        cycle_count_m0_core(&b),
        CycleCount::Function(CycleFunction::Branch { taken: 3, not_taken: 1 })
    );
    let ldr = V6Operation::LDRImm { imm: 0, n: Register::R0, t: Register::R1 };
    assert_eq!(cycle_count_m0plus_core(&ldr), CycleCount::Function(CycleFunction::SingleCycleIo));
    assert_eq!(cycle_count_m0_core(&ldr), CycleCount::Value(2));
    let mov_pc = V6Operation::MOVReg { m: Register::R0, d: Register::PC, set_flags: false };
    assert_eq!(cycle_count_m0plus_core(&mov_pc), CycleCount::Value(2));
    assert_eq!(cycle_count_m0_core(&mov_pc), CycleCount::Value(3));
}

#[test]
fn project_reads_words_in_its_byte_order() {
    let little = project_with(vec![0x78, 0x56, 0x34, 0x12, 0xaa, 0xbb], 0x100, Endianness::Little);
    assert_eq!(little.get_word(0x100).unwrap(), DataWord::Word32(0x1234_5678));
    assert_eq!(little.get_half_word(0x100).unwrap(), DataHalfWord::HalfWord32(0x5678));
    assert_eq!(little.get_byte(0x101).unwrap(), 0x56);
    let big = project_with(vec![0x12, 0x34, 0x56, 0x78], 0x100, Endianness::Big);
    assert_eq!(big.get_word(0x100).unwrap(), DataWord::Word32(0x1234_5678));
    match little.get_raw_word(0x102).unwrap() {
        RawDataWord::Word32(b) => assert_eq!(b, [0x34, 0x12, 0xaa, 0xbb]),
        _ => panic!("a 32 bit target reads 32 bit words"),
    }
}

#[test]
fn project_refuses_reads_outside_its_code() {
    let p = project_with(vec![1, 2, 3, 4], 0x100, Endianness::Little);
    let oob = ProjectError::ProgramMemmoryError(MemoryError::OutOfBounds);
    assert_eq!(p.get_byte(0xff).err(), Some(oob.clone()));
    assert_eq!(p.get_word(0x102).err(), Some(oob.clone()));
    assert_eq!(p.get_byte(0x104).err(), Some(oob));
    assert!(p.address_in_range(0x104));
    assert!(!p.address_in_range(0x105));
}

#[test]
fn project_symbols_and_hooks() {
    let mut p = Project::manual_project(
        vec![],
        0,
        0,
        WordSize::Bit32,
        Endianness::Little,
        ArmIsa::ArmV6M,
        vec![("f".to_owned(), 1), ("f".to_owned(), 2)],
        vec![],
        vec![("PC+".to_owned(), RegisterReadHook::PcPlusOne)],
        vec![],
        vec![(0x10, MemoryReadHook::AllOnesWord)],
        vec![((0x20, 0x30), MemoryReadHook::AllOnesWord)],
        vec![],
        vec![],
    );
    assert_eq!(p.get_symbol_address("f"), Some(2));
    assert_eq!(p.get_symbol_address("g"), None);
    assert!(p.get_pc_hook(0x40).is_none());
    p.add_pc_hook(0x40, PCHook::Suppress);
    p.add_pc_hook(0x40, PCHook::EndSuccess);
    assert!(matches!(p.get_pc_hook(0x40), Some(PCHook::EndSuccess)));
    assert_eq!(p.get_register_read_hook("PC+"), Some(RegisterReadHook::PcPlusOne));
    assert_eq!(p.get_register_read_hook("PC"), None);
    assert_eq!(p.get_memory_read_hook(0x10), Some(MemoryReadHook::AllOnesWord));
    assert_eq!(p.get_memory_read_hook(0x2f), Some(MemoryReadHook::AllOnesWord));
    assert_eq!(p.get_memory_read_hook(0x30), None);
    assert_eq!(p.get_ptr_size(), 32);
    assert_eq!(p.get_half_word(0).err(), Some(ProjectError::ProgramMemmoryError(MemoryError::OutOfBounds)));
}

#[test]
fn memory_hooks_split_by_kind() {
    let (single, range) = construct_memory_read_hooks(vec![
        (MemoryHookAddress::Single(4), MemoryReadHook::AllOnesWord),
        (MemoryHookAddress::Range(8, 12), MemoryReadHook::AllOnesWord),
        (MemoryHookAddress::Single(5), MemoryReadHook::AllOnesWord),
    ]);
    assert_eq!(single.iter().map(|h| h.0).collect::<Vec<_>>(), vec![4, 5]);
    assert_eq!(range.iter().map(|h| h.0).collect::<Vec<_>>(), vec![(8, 12)]);
}

#[test]
fn named_expressions_keep_the_last_binding() {
    let ctx = DContext::new();
    let mut m = NamedExprs::new();
    m.insert("a".to_owned(), ctx.from_u64(1, 8));
    m.insert("b".to_owned(), ctx.from_u64(2, 8));
    m.insert("a".to_owned(), ctx.from_u64(3, 8));
    assert_eq!(m.len(), 2);
    assert_eq!(m.get("a").unwrap().get_constant(), Some(3));
    assert_eq!(m.get("b").unwrap().get_constant(), Some(2));
    assert!(m.get("c").is_none());
}

#[test]
fn solver_refuses_a_false_constant() {
    let ctx = DContext::new();
    let mut solver = DSolver::new(&ctx);
    let symbol = ctx.unconstrained(1, "x");
    assert_eq!(solver.is_sat_with_constraint(&symbol), Ok(true));
    assert_eq!(solver.is_sat_with_constraint(&ctx.from_bool(false)), Ok(false));
    solver.push();
    solver.assert_expr(&ctx.from_bool(false));
    assert_eq!(solver.is_sat(), Ok(false));
    solver.pop();
    assert_eq!(solver.is_sat(), Ok(true));
    match solver.get_values(&ctx.from_u64(7, 8), 10).unwrap() {
        Solutions::Exactly(v) => assert_eq!(v[0].get_constant(), Some(7)),
        Solutions::AtLeast(_) => panic!("a constant has exactly one value"),
    }
}

#[test]
fn paths_are_explored_last_in_first_out() {
    let project = leak(project_with(vec![0; 4], 0x100, Endianness::Little));
    let ctx = DContext::new();
    let first = GAState::create_test_state(project, &ctx, DSolver::new(&ctx), 0x100, 0);
    let second = GAState::create_test_state(project, &ctx, DSolver::new(&ctx), 0x200, 0);
    let mut paths = DFSPathSelection::new();
    paths.save_path(Path::new(first, None));
    paths.save_path(Path::new(second, Some(ctx.from_bool(true))));
    let p = paths.get_path().unwrap();
    assert_eq!(p.constraints.len(), 1);
    let mut executor = GAExecutor::from_state(p.state, project);
    let pc = executor.state.get_register("PC".to_owned()).unwrap();
    assert_eq!(pc.get_constant(), Some(0x200));
    assert!(paths.get_path().is_some());
    assert!(paths.get_path().is_none());
}

#[test]
fn hooks_follow_function_names() {
    let functions = vec![
        ("panic".to_owned(), 0x10),
        ("main".to_owned(), 0x20),
        ("suppress_path".to_owned(), 0x30),
        ("symbolic_size<u32>".to_owned(), 0x40),
    ];
    let mut cfg = RunConfig::new();
    ArmV6M {}.add_hooks(&mut cfg);
    let mut patterns = default_pc_hooks();
    patterns.extend(cfg.pc_hooks);
    patterns.push(("(".to_owned(), PCHook::Continue));
    let hooks = construct_pc_hooks(&patterns, &functions);
    assert_eq!(hooks.len(), 3);
    assert_eq!(hooks[0].0, 0x10);
    assert!(matches!(hooks[0].1, PCHook::EndFaliure("panic")));
    assert_eq!(hooks[1].0, 0x30);
    assert!(matches!(hooks[1].1, PCHook::Suppress));
    assert_eq!(hooks[2].0, 0x40);
    assert!(matches!(hooks[2].1, PCHook::Intrinsic(_)));
}

#[test]
fn architecture_hooks() {
    let mut cfg = RunConfig::new();
    ArmV7EM::default().add_hooks(&mut cfg);
    assert_eq!(cfg.register_read_hooks.len(), 2);
    assert_eq!(cfg.register_write_hooks.len(), 2);
    assert_eq!(cfg.register_read_hooks[1].0, "SP&");
    assert_eq!(cfg.memory_read_hooks.len(), 1);
}

#[test]
fn isa_from_attributes() {
    let mut data = vec![0u8; 24];
    data[23] = 12;
    assert_eq!(arm_isa(&data), Ok(ArmIsa::ArmV6M));
    data[23] = 13;
    assert_eq!(arm_isa(&data), Ok(ArmIsa::ArmV7EM));
    data[23] = 3;
    assert_eq!(arm_isa(&data), Err(ArchError::UnsuportedArchitechture));
    assert_eq!(arm_isa(&data[..10]), Err(ArchError::MalformedSection));
}

#[test]
fn segments_read_from_the_segment_that_holds_the_address() {
    let s = Segments::from_single_segment(vec![1, 2, 3, 4], 0x100, 0x104);
    assert_eq!(s.read_raw_bytes(0x101, 2), Some(&[2u8, 3][..]));
    assert_eq!(s.read_raw_bytes(0x104, 0), None);
}

#[test]
fn condition_le_holds_when_zero_or_signs_differ() {
    let project = leak(project_with(vec![0; 4], 0x100, Endianness::Little));
    let mut executor = executor_on(project);
    let ctx = DContext::new();
    executor.state.set_flag("Z".to_owned(), ctx.from_bool(false));
    executor.state.set_flag("N".to_owned(), ctx.from_bool(true));
    executor.state.set_flag("V".to_owned(), ctx.from_bool(false));
    assert_eq!(executor.state.get_expr(&Condition::LE).get_constant_bool(), Some(true));
    assert_eq!(executor.state.get_expr(&Condition::GT).get_constant_bool(), Some(false));
    executor.state.set_flag("V".to_owned(), ctx.from_bool(true));
    assert_eq!(executor.state.get_expr(&Condition::LE).get_constant_bool(), Some(false));
    executor.state.set_flag("Z".to_owned(), ctx.from_bool(true));
    assert_eq!(executor.state.get_expr(&Condition::LE).get_constant_bool(), Some(true));
    assert_eq!(executor.state.get_expr(&Condition::AL).get_constant_bool(), Some(true));
}

#[test]
fn instruction_moves_the_program_counter_past_it() {
    let project = leak(project_with(vec![0; 4], 0x100, Endianness::Little));
    let mut executor = executor_on(project);
    let nop = Instruction { instruction_size: 16, operations: vec![], max_cycle: CycleCount::Value(1) };
    executor.execute_instruction(&nop).unwrap();
    let pc = executor.state.get_register("PC".to_owned()).unwrap();
    assert_eq!(pc.get_constant(), Some(0x102));
    assert_eq!(executor.state.get_instruction_count(), 1);
    assert_eq!(executor.state.last_pc, 0x100);
}

#[test]
fn unconditional_jump_sets_the_program_counter() {
    let project = leak(project_with(vec![0; 4], 0x100, Endianness::Little));
    let mut executor = executor_on(project);
    let mut local = NamedExprs::new();
    let jump = Operation::ConditionalJump {
        destination: Operand::Immediate(DataWord::Word32(0x400)),
        condition: Condition::AL,
    };
    executor.execute_operation(&jump, &mut local).unwrap();
    assert!(executor.state.get_has_jumped());
    let pc = executor.state.get_register("PC".to_owned()).unwrap();
    assert_eq!(pc.get_constant(), Some(0x400));
}

#[test]
fn symbolic_branch_forks_the_path() {
    let project = leak(project_with(vec![0; 4], 0x100, Endianness::Little));
    let mut executor = executor_on(project);
    let mut local = NamedExprs::new();
    let jump = Operation::ConditionalJump {
        destination: Operand::Immediate(DataWord::Word32(0x400)),
        condition: Condition::EQ,
    };
    executor.execute_operation(&jump, &mut local).unwrap();
    assert_eq!(executor.forks.len(), 1);
    let pc = executor.state.get_register("PC".to_owned()).unwrap();
    assert_eq!(pc.get_constant(), Some(0x400));
    assert_eq!(executor.forks[0].constraints.len(), 1);
}

#[test]
fn code_is_read_only_and_hooked_reads_give_their_value() {
    let project = leak(Project::manual_project(
        vec![0; 8],
        0x100,
        0x108,
        WordSize::Bit32,
        Endianness::Little,
        ArmIsa::ArmV6M,
        vec![],
        vec![],
        vec![],
        vec![],
        vec![(0x4000_c008, MemoryReadHook::AllOnesWord)],
        vec![],
        vec![],
        vec![],
    ));
    let mut executor = executor_on(project);
    assert_eq!(executor.get_memory(0x4000_c008, 32).unwrap().get_constant(), Some(0xffff_ffff));
    let value = executor.state.ctx.from_u64(1, 32);
    assert_eq!(executor.set_memory(value, 0x104, 32), Err(GAError::WritingToStaticMemoryProhibited));
    let value = executor.state.ctx.from_u64(0xabcd, 32);
    executor.set_memory(value, 0x2000_0000, 16).unwrap();
    assert_eq!(executor.get_memory(0x2000_0000, 16).unwrap().get_constant(), Some(0xabcd));
}

#[test]
fn a_program_runs_to_its_return() {
    // MOVS R0, #5 ; BX LR
    let mut project = project_with(vec![0x05, 0x20, 0x70, 0x47, 0, 0, 0, 0], 0x100, Endianness::Little);
    project.add_instruction(0x100, v6(V6Operation::MOVImm { d: Register::R0, imm: 5 }));
    project.add_instruction(0x102, v6(V6Operation::BX { m: Register::LR }));
    project.add_pc_hook(0xFFFF_FFFE, PCHook::EndSuccess);
    let project = leak(project);
    let ctx = DContext::new();
    let mut vm = VM::new(project, &ctx, "main", 0xFFFF_FFFE).unwrap();
    let (result, mut state) = vm.run().unwrap().unwrap();
    assert!(matches!(result, PathResult::Success(None)));
    let r0 = state.get_register("R0".to_owned()).unwrap();
    assert_eq!(r0.get_constant(), Some(5));
    assert_eq!(state.get_instruction_count(), 2);
    assert_eq!(state.cycle_count, 1 + 2);
    assert!(vm.run().unwrap().is_none());
}

#[test]
fn entry_function_must_exist() {
    let project = leak(project_with(vec![0; 4], 0x100, Endianness::Little));
    let ctx = DContext::new();
    let r = VM::new(project, &ctx, "missing", 0);
    assert!(matches!(r, Err(GAError::EntryFunctionNotFound(name)) if name == "missing"));
}

#[test]
fn bits_to_bytes() {
    assert_eq!(to_bytes(32), Ok(4));
    assert_eq!(to_bytes(12), Err(MemoryError::BitsNotMultipleOfBytes(12)));
}

#[test]
fn register_stored_to_memory_is_loaded_back() {
    let project = leak(project_with(vec![0; 8], 0x100, Endianness::Little));
    let mut executor = executor_on(project);
    let mut local = NamedExprs::new();
    let r0 = Operand::Register("R0".to_owned());
    let r1 = Operand::Register("R1".to_owned());
    let word_at = Operand::Address(DataWord::Word32(0x2000_0010), 32);
    let byte_at = Operand::Address(DataWord::Word32(0x2000_0020), 8);
    let set_r0 = Operation::Move { destination: r0.clone(), source: Operand::Immediate(DataWord::Word32(0x1234_5678)) };
    executor.execute_operation(&set_r0, &mut local).unwrap();
    let store = Operation::Move { destination: word_at.clone(), source: r0.clone() };
    executor.execute_operation(&store, &mut local).unwrap();
    let load = Operation::Move { destination: r1.clone(), source: word_at };
    executor.execute_operation(&load, &mut local).unwrap();
    assert_eq!(executor.get_operand_value(&r1, &local).unwrap().get_constant(), Some(0x1234_5678));
    // a byte store keeps only the low byte
    let store = Operation::Move { destination: byte_at.clone(), source: r0 };
    executor.execute_operation(&store, &mut local).unwrap();
    let load = Operation::Move { destination: r1.clone(), source: byte_at };
    executor.execute_operation(&load, &mut local).unwrap();
    assert_eq!(executor.get_operand_value(&r1, &local).unwrap().get_constant(), Some(0x78));
}

#[test]
fn memory_operands_that_cannot_be_resolved_are_refused() {
    let project = leak(project_with(vec![0; 8], 0x100, Endianness::Little));
    let mut executor = executor_on(project);
    let mut local = NamedExprs::new();
    let missing = Operand::AddressInLocal("nowhere".to_owned(), 32);
    assert_eq!(
        executor.get_operand_value(&missing, &local).err(),
        Some(GAError::ProjectError(ProjectError::UnabvalableOperation))
    );
    let value = executor.state.ctx.from_u64(1, 32);
    assert_eq!(
        executor.set_operand_value(&Operand::Immediate(DataWord::Word32(3)), value, &mut local),
        Err(GAError::ProjectError(ProjectError::UnabvalableOperation))
    );
    // code is read only through a memory operand too
    let value = executor.state.ctx.from_u64(1, 32);
    assert_eq!(
        executor.set_operand_value(&Operand::Address(DataWord::Word32(0x104), 32), value, &mut local),
        Err(GAError::WritingToStaticMemoryProhibited)
    );
}

#[test]
fn translate_add_register_saves_its_operands() {
    let i = translate_v6(&v6(V6Operation::ADDReg { m: Register::R2, n: Register::R1, d: Register::R0 })).unwrap();
    assert_eq!(i.operations.len(), 7);
    assert!(matches!(&i.operations[0], Operation::Move { destination: Operand::Local(l), source: Operand::Register(r) } if l == "m" && r == "R2"));
    assert!(matches!(&i.operations[1], Operation::Move { destination: Operand::Local(l), source: Operand::Register(r) } if l == "n" && r == "R1"));
    assert!(matches!(&i.operations[2], Operation::Add { destination: Operand::Register(d), .. } if d == "R0"));
    assert!(matches!(&i.operations[5], Operation::SetCFlag { sub: false, carry: false, .. }));
}

#[test]
fn translate_byte_reversal() {
    let i = translate_v6(&v6(V6Operation::REV { m: Register::R1, d: Register::R0 })).unwrap();
    assert_eq!(i.operations.len(), 1 + 3 * 4);
    assert!(matches!(&i.operations[4], Operation::And { operand2: Operand::Immediate(DataWord::Word32(0xff00_0000)), .. }));
    assert!(matches!(&i.operations[5], Operation::Sl { shift: Operand::Immediate(DataWord::Word32(24)), .. }));
    let i = translate_v6(&v6(V6Operation::REVSH { m: Register::R1, d: Register::R0 })).unwrap();
    assert_eq!(i.operations.len(), 1 + 3 * 2 + 1);
    assert!(matches!(&i.operations[7], Operation::SignExtend { bits: 16, .. }));
}

#[test]
fn translate_pop_loads_each_register_in_turn() {
    let i = translate_v6(&v6(V6Operation::POP { reg_list: vec![Register::R4, Register::PC] })).unwrap();
    assert_eq!(i.operations.len(), 2 + 2 * 2);
    assert!(matches!(&i.operations[1], Operation::Move { destination: Operand::Register(r), source: Operand::AddressInLocal(a, 32) } if r == "R4" && a == "Address"));
    assert!(matches!(&i.operations[3], Operation::Move { destination: Operand::Register(r), .. } if r == "PC"));
    assert!(matches!(&i.operations[5], Operation::Add { operand2: Operand::Immediate(DataWord::Word32(8)), .. }));
}

#[test]
fn a_fork_resumes_where_the_jump_was_not_taken() {
    let project = leak(project_with(vec![0; 4], 0x100, Endianness::Little));
    let mut executor = executor_on(project);
    let mut local = NamedExprs::new();
    let jump = Operation::ConditionalJump {
        destination: Operand::Immediate(DataWord::Word32(0x400)),
        condition: Condition::NE,
    };
    executor.execute_operation(&jump, &mut local).unwrap();
    assert_eq!(executor.forks.len(), 1);
    // the saved path keeps the program counter the jump started from
    assert_eq!(executor.forks[0].state.pc_register, 0x100);
    // the current path jumped and recorded the condition
    assert_eq!(executor.state.pc_register, 0x400);
    assert!(executor.state.get_has_jumped());
}

#[test]
fn a_decided_condition_does_not_fork() {
    let project = leak(project_with(vec![0; 4], 0x100, Endianness::Little));
    let mut executor = executor_on(project);
    let mut local = NamedExprs::new();
    // Z is set to a constant 1 by a comparison of equal constants
    let compare = Operation::SetZFlag(Operand::Immediate(DataWord::Word32(0)));
    executor.execute_operation(&compare, &mut local).unwrap();
    let jump = Operation::ConditionalJump {
        destination: Operand::Immediate(DataWord::Word32(0x400)),
        condition: Condition::NE,
    };
    executor.execute_operation(&jump, &mut local).unwrap();
    assert_eq!(executor.forks.len(), 0);
    assert_eq!(executor.state.pc_register, 0x100);
    let jump = Operation::ConditionalJump {
        destination: Operand::Immediate(DataWord::Word32(0x400)),
        condition: Condition::EQ,
    };
    executor.execute_operation(&jump, &mut local).unwrap();
    assert_eq!(executor.forks.len(), 0);
    assert_eq!(executor.state.pc_register, 0x400);
}

#[test]
fn bounds_refute_contradicting_constraints() {
    let ctx = DContext::new();
    let mut solver = DSolver::new(&ctx);
    let x = ctx.unconstrained(32, "x");
    solver.assert_expr(&x.ult(&ctx.from_u64(5, 32)));
    assert_eq!(solver.is_sat(), Ok(true));
    // x < 5 leaves x >= 5 impossible, and x < 10 possible
    assert_eq!(solver.is_sat_with_constraint(&x.ugte(&ctx.from_u64(5, 32))), Ok(false));
    assert_eq!(solver.is_sat_with_constraint(&x.ult(&ctx.from_u64(10, 32))), Ok(true));
    solver.assert_expr(&x.ugt(&ctx.from_u64(7, 32)));
    assert_eq!(solver.is_sat(), Ok(false));
}

#[test]
fn arm_binaries_name_their_instruction_set() {
    let mut data = vec![0u8; 24];
    data[23] = 10;
    assert_eq!(Arm::try_from(true, Some(&data)), Ok(ArmIsa::ArmV7EM));
    assert_eq!(Arm::try_from(false, Some(&data)), Err(ArchError::IncorrectFileType));
    assert_eq!(Arm::try_from(true, None), Err(ArchError::MissingSection(".ARM.attributes")));
}

#[test]
fn a_project_from_its_parts_hooks_its_functions() {
    let functions = vec![
        ("main".to_owned(), 0x100u64),
        ("panic".to_owned(), 0x120u64),
        ("symbolic_size<u32>".to_owned(), 0x140u64),
    ];
    let decoded = vec![(0x100u64, v6(V6Operation::NOP))];
    let project = Project::from_parts(
        vec![0; 0x60],
        0x100,
        0x160,
        WordSize::Bit32,
        Endianness::Little,
        ArmIsa::ArmV6M,
        vec![("main".to_owned(), 0x100)],
        &functions,
        decoded,
    );
    assert!(project.get_pc_hook(0x100).is_none());
    assert!(matches!(project.get_pc_hook(0x120), Some(PCHook::EndFaliure("panic"))));
    assert!(matches!(project.get_pc_hook(0x140), Some(PCHook::Intrinsic(_))));
    assert_eq!(project.get_register_read_hook("PC+"), Some(RegisterReadHook::PcPlusOne));
    assert_eq!(project.get_memory_read_hook(0x4000_c008), Some(MemoryReadHook::AllOnesWord));
    assert_eq!(project.get_symbol_address("main"), Some(0x100));
    assert!(project.get_instruction(0x100).is_ok());
}

#[test]
fn resuming_outside_the_code_fails_to_fetch() {
    let project = leak(project_with(vec![0; 8], 0x100, Endianness::Little));
    let ctx = DContext::new();
    let solver = DSolver::new(&ctx);
    let state = GAState::create_test_state(project, &ctx, solver, 0x4000, 0x2000_1000);
    let mut executor = GAExecutor::from_state(state, project);
    let r = executor.resume_execution();
    assert!(matches!(r, Err(GAError::ProjectError(ProjectError::ProgramMemmoryError(MemoryError::OutOfBounds)))));
}

#[test]
fn resuming_where_nothing_was_decoded_is_unavailable() {
    let project = leak(project_with(vec![0; 8], 0x100, Endianness::Little));
    let mut executor = executor_on(project);
    let r = executor.resume_execution();
    assert!(matches!(r, Err(GAError::ProjectError(ProjectError::UnabvalableOperation))));
}

#[test]
fn a_path_at_an_end_hook_ends_at_once() {
    let mut project = project_with(vec![0; 8], 0x100, Endianness::Little);
    project.add_pc_hook(0x100, PCHook::EndSuccess);
    let project = leak(project);
    let ctx = DContext::new();
    let mut vm = VM::new(project, &ctx, "main", 0xFFFF_FFFE).unwrap();
    let (result, state) = vm.run().unwrap().unwrap();
    assert!(matches!(result, PathResult::Success(None)));
    assert_eq!(state.get_instruction_count(), 0);
    assert_eq!(state.cycle_count, 0);
    assert!(vm.run().unwrap().is_none());
}

#[test]
fn symbolic_sized_covers_values_wider_than_a_word() {
    let mut project = project_with(vec![0; 8], 0x100, Endianness::Little);
    project.add_pc_hook(0x100, PCHook::Intrinsic(symex::symex::project::IntrinsicHook::SymbolicSized));
    project.add_pc_hook(0x200, PCHook::EndSuccess);
    let project = leak(project);
    let mut executor = executor_on(project);
    let ctx = executor.state.ctx;
    executor.state.set_register("R0".to_owned(), ctx.from_u64(0x2000_0000, 32)).unwrap();
    executor.state.set_register("R1".to_owned(), ctx.from_u64(12, 32)).unwrap();
    executor.state.set_register("LR".to_owned(), ctx.from_u64(0x200, 32)).unwrap();
    let before = executor.state.marked_symbolic.len();
    let r = executor.resume_execution();
    assert!(matches!(r, Ok(PathResult::Success(None))));
    assert_eq!(executor.state.marked_symbolic.len(), before + 2);
    assert_eq!(executor.state.marked_symbolic[before].bits, 64);
    assert_eq!(executor.state.marked_symbolic[before + 1].bits, 32);
    let high = executor.get_memory(0x2000_0008, 32).unwrap();
    assert!(high.get_constant().is_none());
}

#[test]
fn a_flag_setter_writes_only_its_flag() {
    let project = leak(project_with(vec![0; 8], 0x100, Endianness::Little));
    let mut executor = executor_on(project);
    let mut local = NamedExprs::new();
    let one = Operation::Move {
        destination: Operand::Flag("C".to_owned()),
        source: Operand::Immediate(DataWord::Word32(1)),
    };
    executor.execute_operation(&one, &mut local).unwrap();
    let set_z = Operation::SetZFlag(Operand::Immediate(DataWord::Word32(0)));
    executor.execute_operation(&set_z, &mut local).unwrap();
    assert_eq!(executor.state.get_flag("Z").unwrap().get_constant(), Some(1));
    assert_eq!(executor.state.get_flag("C").unwrap().get_constant(), Some(1));
}
