use symex::smt::expr::DContext;
use symex::smt::solver::DSolver;
use symex::symex::executor::{
    add_with_carry, count_leading_ones, count_leading_zeroes, count_ones, count_zeroes,
};

#[test]
fn test_count_ones_concrete() {
    let ctx = DContext::new();
    let num1 = ctx.from_u64(1, 32);
    let num32 = ctx.from_u64(32, 32);
    let numff = ctx.from_u64(0xff, 32);
    let result = count_ones(&num1, &ctx, 32);
    assert_eq!(result.get_constant().unwrap(), 1);
    let result = count_ones(&num32, &ctx, 32);
    assert_eq!(result.get_constant().unwrap(), 1);
    let result = count_ones(&numff, &ctx, 32);
    assert_eq!(result.get_constant().unwrap(), 8);
}

#[test]
fn test_count_ones_symbolic() {
    let ctx = DContext::new();
    let mut solver = DSolver::new(&ctx);
    let any_u32 = ctx.unconstrained(32, "any1");
    let num_0x100 = ctx.from_u64(0x100, 32);
    let num_8 = ctx.from_u64(8, 32);
    solver.assert_expr(&any_u32.ult(&num_0x100));
    let result = count_ones(&any_u32, &ctx, 32);
    let result_below_or_equal_8 = result.ulte(&num_8);
    let result_above_8 = result.ugt(&num_8);
    let can_be_below_or_equal_8 = solver
        .is_sat_with_constraint(&result_below_or_equal_8)
        .unwrap();
    let can_be_above_8 = solver.is_sat_with_constraint(&result_above_8).unwrap();
    assert!(can_be_below_or_equal_8);
    assert!(!can_be_above_8);
}

#[test]
fn test_count_zeroes_concrete() {
    let ctx = DContext::new();
    let num1 = ctx.from_u64(!1, 32);
    let num32 = ctx.from_u64(!32, 32);
    let numff = ctx.from_u64(!0xff, 32);
    let result = count_zeroes(&num1, &ctx, 32);
    assert_eq!(result.get_constant().unwrap(), 1);
    let result = count_zeroes(&num32, &ctx, 32);
    assert_eq!(result.get_constant().unwrap(), 1);
    let result = count_zeroes(&numff, &ctx, 32);
    assert_eq!(result.get_constant().unwrap(), 8);
}

#[test]
fn test_count_leading_ones_concrete() {
    let ctx = DContext::new();
    let input = ctx.from_u64(0b1000_0000, 8);
    let result = count_leading_ones(&input, &ctx, 8);
    assert_eq!(result.get_constant().unwrap(), 1);
    let input = ctx.from_u64(0b1100_0000, 8);
    let result = count_leading_ones(&input, &ctx, 8);
    assert_eq!(result.get_constant().unwrap(), 2);
    let input = ctx.from_u64(0b1110_0011, 8);
    let result = count_leading_ones(&input, &ctx, 8);
    assert_eq!(result.get_constant().unwrap(), 3);
}

#[test]
fn test_count_leading_zeroes_concrete() {
    let ctx = DContext::new();
    let input = ctx.from_u64(!0b1000_0000, 8);
    let result = count_leading_zeroes(&input, &ctx, 8);
    assert_eq!(result.get_constant().unwrap(), 1);
    let input = ctx.from_u64(!0b1100_0000, 8);
    let result = count_leading_zeroes(&input, &ctx, 8);
    assert_eq!(result.get_constant().unwrap(), 2);
    let input = ctx.from_u64(!0b1110_0011, 8);
    let result = count_leading_zeroes(&input, &ctx, 8);
    assert_eq!(result.get_constant().unwrap(), 3);
}

#[test]
fn test_add_with_carry() {
    let ctx = DContext::new();
    let one_bool = ctx.from_bool(true);
    let zero_bool = ctx.from_bool(false);
    let zero = ctx.from_u64(0, 32);
    let num42 = ctx.from_u64(42, 32);
    let num16 = ctx.from_u64(16, 32);
    let umax = ctx.from_u64(u32::MAX as u64, 32);
    let smin = ctx.from_u64(i32::MIN as u64, 32);
    let smax = ctx.from_u64(i32::MAX as u64, 32);

    // simple add
    let result = add_with_carry(&num42, &num16, &zero_bool, 32);
    assert_eq!(result.result.get_constant().unwrap(), 58);
    assert!(!result.carry_out.get_constant_bool().unwrap());
    assert!(!result.overflow.get_constant_bool().unwrap());

    // simple sub
    let result = add_with_carry(&num42, &num16.not(), &one_bool, 32);
    assert_eq!(result.result.get_constant().unwrap(), 26);
    assert!(result.carry_out.get_constant_bool().unwrap());
    assert!(!result.overflow.get_constant_bool().unwrap());

    // signed sub negative result
    let result = add_with_carry(&num16, &num42.not(), &one_bool, 32);
    assert_eq!(
        result.result.get_constant().unwrap(),
        (-26i32 as u32) as u64
    );
    assert!(!result.carry_out.get_constant_bool().unwrap());
    assert!(!result.overflow.get_constant_bool().unwrap());

    // unsigned overflow
    let result = add_with_carry(&umax, &num16, &zero_bool, 32);
    assert_eq!(result.result.get_constant().unwrap(), 15 as u64);
    assert!(result.carry_out.get_constant_bool().unwrap());
    assert!(!result.overflow.get_constant_bool().unwrap());

    // signed overflow
    let result = add_with_carry(&smax, &num16, &zero_bool, 32);
    assert_eq!(result.result.get_constant().unwrap(), 2147483663);
    assert!(!result.carry_out.get_constant_bool().unwrap());
    assert!(result.overflow.get_constant_bool().unwrap());

    // signed underflow
    let result = add_with_carry(&smin, &num16.not(), &one_bool, 32);
    assert_eq!(result.result.get_constant().unwrap(), 2147483632);
    assert!(result.carry_out.get_constant_bool().unwrap());
    assert!(result.overflow.get_constant_bool().unwrap());

    // zero add
    let result = add_with_carry(&num16, &zero, &zero_bool, 32);
    assert_eq!(result.result.get_constant().unwrap(), 16);
    assert!(!result.carry_out.get_constant_bool().unwrap());
    assert!(!result.overflow.get_constant_bool().unwrap());

    // zero subb
    let result = add_with_carry(&num16, &zero.not(), &one_bool, 32);
    assert_eq!(result.result.get_constant().unwrap(), 16);
    assert!(result.carry_out.get_constant_bool().unwrap());
    assert!(!result.overflow.get_constant_bool().unwrap());
}
