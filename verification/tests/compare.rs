use symex::arch::arm::registers::{ArmCondition, Register};
use symex::arch::arm::v6::instruction::{InstructionWidth, V6Instruction, V6Operation};
use symex::arch::arm::v7::compare::{eq_trampoline, v6_to_v7};
use symex::arch::arm::v7::operation::{SetFlags, V7Operation};

fn narrow(operation: V6Operation) -> V6Instruction {
    V6Instruction { width: InstructionWidth::Bit16, operation }
}

#[test]
fn compare_adc_with_destination_left_out() {
    let v6 = narrow(V6Operation::ADCReg { m: Register::R2, n: Register::R1, d: Register::R1 });
    let v7 = V7Operation::AdcRegister { s: None, rd: None, rn: Register::R1, rm: Register::R2, shift: None };
    assert!(eq_trampoline(&v6, &(16, v7)));
}

#[test]
fn compare_refuses_other_size() {
    let v6 = narrow(V6Operation::BX { m: Register::LR });
    assert!(!eq_trampoline(&v6, &(32, V7Operation::Bx { rm: Register::LR })));
    assert!(eq_trampoline(&v6, &(16, V7Operation::Bx { rm: Register::LR })));
}

#[test]
fn compare_refuses_other_operands_and_operations() {
    let v6 = narrow(V6Operation::ADDImm { imm: 4, n: Register::R0, d: Register::R1 });
    let other_imm = V7Operation::AddImmediate { s: None, rd: Some(Register::R1), rn: Register::R0, imm: 5 };
    assert!(!eq_trampoline(&v6, &(16, other_imm)));
    assert!(!eq_trampoline(&v6, &(16, V7Operation::Nop)));
    let v6_cond = narrow(V6Operation::B { cond: ArmCondition::EQ, imm: 8 });
    assert!(eq_trampoline(&v6_cond, &(16, V7Operation::B { condition: ArmCondition::EQ, imm: 8 })));
    assert!(!eq_trampoline(&v6_cond, &(16, V7Operation::B { condition: ArmCondition::NE, imm: 8 })));
}

#[test]
fn compare_and_with_named_destination_is_refused() {
    let v6 = narrow(V6Operation::ANDReg { m: Register::R1, dn: Register::R0 });
    let named = V7Operation::AndRegister { s: None, rd: Some(Register::R0), rn: Register::R0, rm: Register::R1, shift: None };
    assert!(!eq_trampoline(&v6, &(16, named)));
    let unnamed = V7Operation::AndRegister { s: None, rd: None, rn: Register::R0, rm: Register::R1, shift: None };
    assert!(eq_trampoline(&v6, &(16, unnamed)));
}

#[test]
fn compare_register_lists_as_far_as_both_go() {
    let v6 = narrow(V6Operation::PUSH { reg_list: vec![Register::R4, Register::LR] });
    let longer = V7Operation::Push { registers: vec![Register::R4, Register::LR, Register::R5] };
    assert!(eq_trampoline(&v6, &(16, longer)));
    let other = V7Operation::Push { registers: vec![Register::R5] };
    assert!(!eq_trampoline(&v6, &(16, other)));
}

#[test]
fn v6_to_v7_add_immediate() {
    match v6_to_v7(V6Operation::ADDImm { imm: 7, n: Register::R2, d: Register::R3 }) {
        V7Operation::AddImmediate { s, rd, rn, imm } => {
            assert_eq!(s, Some(SetFlags::InITBlock(false)));
            assert_eq!(rd, Some(Register::R3));
            assert_eq!(rn, Register::R2);
            assert_eq!(imm, 7);
        }
        other => panic!("unexpected {:?}", other),
    }
}

#[test]
fn v6_to_v7_ldm_and_ldr() {
    match v6_to_v7(V6Operation::LDM { n: Register::R0, reg_list: vec![Register::R1, Register::R2] }) {
        V7Operation::Ldm { w, rn, registers } => {
            assert_eq!(w, None);
            assert_eq!(rn, Register::R0);
            assert_eq!(registers, vec![Register::R1, Register::R2]);
        }
        other => panic!("unexpected {:?}", other),
    }
    match v6_to_v7(V6Operation::LDRImm { imm: 4, n: Register::SP, t: Register::R0 }) {
        V7Operation::LdrImmediate { w, add, index, rt, rn, imm } => {
            assert_eq!((w, add, index, rt, rn, imm), (None, true, true, Register::R0, Register::SP, 4));
        }
        other => panic!("unexpected {:?}", other),
    }
}

#[test]
fn v6_to_v7_form_compares_equal() {
    let ops = vec![
        V6Operation::ADDReg { m: Register::R1, n: Register::R2, d: Register::R3 },
        V6Operation::CMPReg { m: Register::R1, n: Register::R2 },
        V6Operation::LDRLiteral { t: Register::R5, imm: 12 },
        V6Operation::ASRReg { m: Register::R1, dn: Register::R2 },
    ];
    for op in ops {
        let again = match &op {
            V6Operation::ADDReg { m, n, d } => V6Operation::ADDReg { m: *m, n: *n, d: *d },
            V6Operation::CMPReg { m, n } => V6Operation::CMPReg { m: *m, n: *n },
            V6Operation::LDRLiteral { t, imm } => V6Operation::LDRLiteral { t: *t, imm: *imm },
            V6Operation::ASRReg { m, dn } => V6Operation::ASRReg { m: *m, dn: *dn },
            _ => unreachable!(),
        };
        let v7 = v6_to_v7(op);
        assert!(eq_trampoline(&narrow(again), &(16, v7)));
    }
}
