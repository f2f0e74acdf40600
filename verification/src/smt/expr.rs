//! Bit-vector expressions and the context that creates them.
use vstd::prelude::*;
use vstd::arithmetic::power2::{pow2, lemma_pow2_pos};
use vstd::arithmetic::div_mod::{lemma_mod_pos_bound, lemma_div_is_ordered_by_denominator,
    lemma_mod_division_less_than_divisor, lemma_small_mod, lemma_div_pos_is_pos,
    lemma_mod_bound};
use crate::smt::bits::{p, to_signed, from_signed, sdiv_int, srem_int, abs, pow2_u128,
    lemma_p_facts, lemma_p_mono, lemma_sub_mod, lemma_div_small, lemma_shl_wide,
    lemma_floor_div_neg, lemma_from_signed_neg, lemma_from_signed_negate, lemma_bitwise_bound,
    lemma_concat_bound};

verus! {

/// An assignment of values to the symbols and arrays of expressions.
pub struct Env {
    /// The value of each scalar symbol, by name.
    pub vars: spec_fn(Seq<char>) -> nat,
    /// The byte stored at each index of each array, by array name.
    pub arrays: spec_fn(Seq<char>, nat) -> nat,
}

/// The assignment that gives every symbol and every array byte zero.
pub open spec fn zero_env() -> Env {
    Env { vars: |n: Seq<char>| 0nat, arrays: |n: Seq<char>, a: nat| 0nat }
}

/// Binary operators.
#[derive(Debug, Clone, Copy, PartialEq, Eq, Structural)]
pub enum BinOp {
    Add,
    Sub,
    Mul,
    UDiv,
    URem,
    SDiv,
    SRem,
    And,
    Or,
    Xor,
    Shl,
    LShr,
    AShr,
    Eq,
    Ult,
    Ule,
    Slt,
    Sle,
    UAddO,
    SAddO,
    Concat,
}

/// A bit-vector expression. Each node records its width in bits.
#[derive(Debug)]
pub enum DExpr {
    /// A constant.
    Const { width: u32, value: u64 },
    /// An unconstrained value, identified by its name.
    Symbol { width: u32, name: String },
    /// The byte at `index` of a named array of bytes.
    Select { array: String, index: Box<DExpr> },
    /// Bitwise complement.
    Not { width: u32, arg: Box<DExpr> },
    /// A binary operation.
    Binary { op: BinOp, width: u32, lhs: Box<DExpr>, rhs: Box<DExpr> },
    /// If `cond` is non-zero then `then_branch` else `else_branch`.
    Ite { width: u32, cond: Box<DExpr>, then_branch: Box<DExpr>, else_branch: Box<DExpr> },
    /// Bits `low .. low + width` of `arg`.
    Extract { low: u32, width: u32, arg: Box<DExpr> },
    /// `arg` with zero bits added above it.
    ZeroExt { width: u32, arg: Box<DExpr> },
    /// `arg` with copies of its sign bit added above it.
    SignExt { width: u32, arg: Box<DExpr> },
}

/// A truth value as a one bit value.
pub open spec fn bit(b: bool) -> nat {
    if b { 1 } else { 0 }
}

/// Whether the operator compares its operands (its result is one bit wide).
pub open spec fn is_predicate(op: BinOp) -> bool {
    match op {
        BinOp::Eq | BinOp::Ult | BinOp::Ule | BinOp::Slt | BinOp::Sle | BinOp::UAddO | BinOp::SAddO => true,
        _ => false,
    }
}

/// The width of the result of `op` applied to operands of widths `wl` and `wr`.
pub open spec fn bin_width(op: BinOp, wl: nat, wr: nat) -> nat {
    if is_predicate(op) {
        1
    } else if op == BinOp::Concat {
        wl + wr
    } else {
        wl
    }
}

/// Whether `op` may combine operands of widths `wl` and `wr`.
pub open spec fn bin_widths_ok(op: BinOp, wl: nat, wr: nat) -> bool {
    &&& 1 <= wl <= 64
    &&& 1 <= wr <= 64
    &&& if op == BinOp::Concat { wl + wr <= 64 } else { wl == wr }
}

/// The value of `op` applied to the values `x` (of width `wl`) and `y` (of width `wr`).
pub open spec fn bin_sem(op: BinOp, wl: nat, wr: nat, x: nat, y: nat) -> nat {
    match op {
        BinOp::Add => (x + y) % p(wl),
        BinOp::Sub => ((x - y) % (p(wl) as int)) as nat,
        BinOp::Mul => (x * y) % p(wl),
        BinOp::UDiv => if y == 0 { (p(wl) - 1) as nat } else { x / y },
        BinOp::URem => if y == 0 { x } else { x % y },
        BinOp::SDiv => from_signed(sdiv_int(to_signed(x, wl), to_signed(y, wl)), wl),
        BinOp::SRem => from_signed(srem_int(to_signed(x, wl), to_signed(y, wl)), wl),
        BinOp::And => ((x as u64) & (y as u64)) as nat,
        BinOp::Or => ((x as u64) | (y as u64)) as nat,
        BinOp::Xor => ((x as u64) ^ (y as u64)) as nat,
        BinOp::Shl => (x * p(y)) % p(wl),
        BinOp::LShr => x / p(y),
        BinOp::AShr => from_signed(to_signed(x, wl) / (p(y) as int), wl),
        BinOp::Eq => bit(x == y),
        BinOp::Ult => bit(x < y),
        BinOp::Ule => bit(x <= y),
        BinOp::Slt => bit(to_signed(x, wl) < to_signed(y, wl)),
        BinOp::Sle => bit(to_signed(x, wl) <= to_signed(y, wl)),
        BinOp::UAddO => bit(x + y >= p(wl)),
        BinOp::SAddO => {
            let s = to_signed(x, wl) + to_signed(y, wl);
            bit(s >= p((wl - 1) as nat) || s < -(p((wl - 1) as nat) as int))
        },
        BinOp::Concat => x * p(wr) + y,
    }
}

/// The value of `x` (of width `w0`) sign extended to `w` bits.
pub open spec fn sign_extend(x: nat, w0: nat, w: nat) -> nat {
    if x >= p((w0 - 1) as nat) {
        (x + p(w) - p(w0)) as nat
    } else {
        x
    }
}

/// The width of a well formed expression lies between 1 and 64.
pub proof fn lemma_wf_width(e: DExpr)
    requires
        e.wf(),
    ensures
        1 <= e.width() <= 64,
{
}

/// The result of an operation on in-range operands is in range.
pub proof fn lemma_bin_sem_range(op: BinOp, wl: nat, wr: nat, x: nat, y: nat)
    requires
        bin_widths_ok(op, wl, wr),
        x < p(wl),
        y < p(wr),
    ensures
        bin_sem(op, wl, wr, x, y) < p(bin_width(op, wl, wr)),
{
    lemma_p_facts(wl);
    lemma_p_facts(wr);
    lemma_p_facts(1);
    lemma_pow2_pos(0);
    let m: int = p(wl) as int;
    match op {
        BinOp::Add => lemma_mod_pos_bound((x + y) as int, m),
        BinOp::Sub => lemma_mod_bound(x - y, m),
        BinOp::Mul => lemma_mod_pos_bound((x * y) as int, m),
        BinOp::UDiv => if y != 0 {
            lemma_div_is_ordered_by_denominator(x as int, 1, y as int);
        },
        BinOp::URem => if y != 0 {
            vstd::arithmetic::div_mod::lemma_mod_decreases(x, y);
        },
        BinOp::SDiv => lemma_mod_bound(sdiv_int(to_signed(x, wl), to_signed(y, wl)), m),
        BinOp::SRem => lemma_mod_bound(srem_int(to_signed(x, wl), to_signed(y, wl)), m),
        BinOp::And => lemma_bitwise_bound(x as u64, y as u64, wl as u32),
        BinOp::Or => lemma_bitwise_bound(x as u64, y as u64, wl as u32),
        BinOp::Xor => lemma_bitwise_bound(x as u64, y as u64, wl as u32),
        BinOp::Shl => lemma_mod_pos_bound((x * p(y)) as int, m),
        BinOp::LShr => {
            lemma_pow2_pos(y);
            lemma_div_is_ordered_by_denominator(x as int, 1, p(y) as int);
        },
        BinOp::AShr => lemma_mod_bound(to_signed(x, wl) / (p(y) as int), m),
        BinOp::Concat => lemma_concat_bound(x, y, wl, wr),
        _ => {},
    }
}

/// Every expression evaluates to a value that fits its width.
pub proof fn lemma_eval_range(e: DExpr, env: Env)
    requires
        e.wf(),
    ensures
        e.eval(env) < p(e.width()),
    decreases e,
{
    vstd::arithmetic::power2::lemma2_to64();
    lemma_p_facts(e.width());
    match e {
        DExpr::Const { .. } => {},
        DExpr::Symbol { width, name } => lemma_mod_pos_bound((env.vars)(name@) as int, p(width as nat) as int),
        DExpr::Select { array, index } => lemma_mod_pos_bound((env.arrays)(array@, index.eval(env)) as int, 256),
        DExpr::Not { arg, .. } => lemma_eval_range(*arg, env),
        DExpr::Binary { op, lhs, rhs, .. } => {
            lemma_eval_range(*lhs, env);
            lemma_eval_range(*rhs, env);
            lemma_bin_sem_range(op, lhs.width(), rhs.width(), lhs.eval(env), rhs.eval(env));
        },
        DExpr::Ite { cond, then_branch, else_branch, .. } => {
            lemma_eval_range(*then_branch, env);
            lemma_eval_range(*else_branch, env);
        },
        DExpr::Extract { low, width, arg } => {
            lemma_pow2_pos(width as nat);
            lemma_pow2_pos(low as nat);
            lemma_mod_pos_bound((arg.eval(env) / p(low as nat)) as int, p(width as nat) as int);
        },
        DExpr::ZeroExt { width, arg } => {
            lemma_eval_range(*arg, env);
            lemma_p_mono(arg.width(), width as nat);
        },
        DExpr::SignExt { width, arg } => {
            lemma_eval_range(*arg, env);
            lemma_wf_width(*arg);
            lemma_p_mono(arg.width(), width as nat);
            lemma_p_facts(arg.width());
            lemma_p_mono((arg.width() - 1) as nat, arg.width());
        },
    }
}

/// The magnitude of a `w` bit two's complement value.
fn magnitude(x: u128, m: u128, h: u128) -> (r: (bool, u128))
    requires
        x < m,
        m == 2 * h,
        h >= 1,
    ensures
        r.0 == (x >= h),
        r.1 == if x >= h { m - x } else { x as int },
        r.1 <= h,
{
    if x >= h {
        (true, m - x)
    } else {
        (false, x)
    }
}

/// Computes `op` on constant operands.
fn fold_binary(op: BinOp, wl: u32, wr: u32, x: u64, y: u64) -> (r: u64)
    requires
        bin_widths_ok(op, wl as nat, wr as nat),
        x < p(wl as nat),
        y < p(wr as nat),
    ensures
        r == bin_sem(op, wl as nat, wr as nat, x as nat, y as nat),
{
    proof {
        lemma_p_facts(wl as nat);
        lemma_p_facts(wr as nat);
        lemma_bin_sem_range(op, wl as nat, wr as nat, x as nat, y as nat);
        lemma_p_mono(bin_width(op, wl as nat, wr as nat), 64);
    }
    let m: u128 = pow2_u128(wl);
    let h: u128 = pow2_u128(wl - 1);
    let xx: u128 = x as u128;
    let yy: u128 = y as u128;
    match op {
        BinOp::Add => {
            let r: u128 = (xx + yy) % m;
            r as u64
        },
        BinOp::Sub => {
            proof {
                lemma_sub_mod(x as int, y as int, m as int);
            }
            let r: u128 = (xx + m - yy) % m;
            r as u64
        },
        BinOp::Mul => {
            assert(xx * yy < 0x1_0000_0000_0000_0000_0000_0000_0000_0000) by (nonlinear_arith)
                requires
                    xx < 0x1_0000_0000_0000_0000,
                    yy < 0x1_0000_0000_0000_0000,
            ;
            let r: u128 = (xx * yy) % m;
            r as u64
        },
        BinOp::UDiv => if y == 0 {
            (m - 1) as u64
        } else {
            x / y
        },
        BinOp::URem => if y == 0 {
            x
        } else {
            x % y
        },
        BinOp::SDiv => {
            let (nx, ax): (bool, u128) = magnitude(xx, m, h);
            let (ny, ay): (bool, u128) = magnitude(yy, m, h);
            if y == 0 {
                if nx {
                    proof {
                        lemma_small_mod(1, m as nat);
                    }
                    1
                } else {
                    proof {
                        lemma_from_signed_neg(0, m as nat);
                    }
                    (m - 1) as u64
                }
            } else {
                let q: u128 = ax / ay;
                assert(q <= ax) by {
                    lemma_div_is_ordered_by_denominator(ax as int, 1, ay as int);
                }
                assert(abs(to_signed(x as nat, wl as nat)) == ax);
                assert(abs(to_signed(y as nat, wl as nat)) == ay);
                if nx != ny {
                    proof {
                        lemma_from_signed_negate(q as nat, m as nat);
                    }
                    if q == 0 {
                        0
                    } else {
                        (m - q) as u64
                    }
                } else {
                    proof {
                        lemma_small_mod(q as nat, m as nat);
                    }
                    q as u64
                }
            }
        },
        BinOp::SRem => {
            let (nx, ax): (bool, u128) = magnitude(xx, m, h);
            let (ny, ay): (bool, u128) = magnitude(yy, m, h);
            if y == 0 {
                proof {
                    if nx {
                        vstd::arithmetic::div_mod::lemma_mod_add_multiples_vanish(x - m, m as int);
                    }
                    lemma_small_mod(x as nat, m as nat);
                }
                x
            } else {
                let r: u128 = ax % ay;
                assert(r < ay) by {
                    lemma_mod_pos_bound(ax as int, ay as int);
                }
                assert(abs(to_signed(x as nat, wl as nat)) == ax);
                assert(abs(to_signed(y as nat, wl as nat)) == ay);
                if nx {
                    proof {
                        lemma_from_signed_negate(r as nat, m as nat);
                    }
                    if r == 0 {
                        0
                    } else {
                        (m - r) as u64
                    }
                } else {
                    proof {
                        lemma_small_mod(r as nat, m as nat);
                    }
                    r as u64
                }
            }
        },
        BinOp::And => x & y,
        BinOp::Or => x | y,
        BinOp::Xor => x ^ y,
        BinOp::Shl => {
            if y >= wl as u64 {
                proof {
                    lemma_shl_wide(x as nat, y as nat, wl as nat);
                }
                0
            } else {
                let s: u128 = pow2_u128(y as u32);
                proof {
                    lemma_p_mono(y as nat, 63);
                    lemma_p_facts(63);
                }
                assert(xx * s < 0x1_0000_0000_0000_0000_0000_0000_0000_0000) by (nonlinear_arith)
                    requires
                        xx < 0x1_0000_0000_0000_0000,
                        s <= 0x1_0000_0000_0000_0000,
                ;
                let r: u128 = (xx * s) % m;
                r as u64
            }
        },
        BinOp::LShr => {
            if y >= wl as u64 {
                proof {
                    lemma_p_mono(wl as nat, y as nat);
                    lemma_div_small(x as nat, p(y as nat));
                }
                0
            } else {
                let s: u128 = pow2_u128(y as u32);
                (xx / s) as u64
            }
        },
        BinOp::AShr => {
            if xx < h {
                let q: u128 = if y >= wl as u64 {
                    proof {
                        lemma_p_mono(wl as nat, y as nat);
                        lemma_div_small(x as nat, p(y as nat));
                    }
                    0
                } else {
                    let s: u128 = pow2_u128(y as u32);
                    xx / s
                };
                proof {
                    lemma_pow2_pos(y as nat);
                    lemma_div_is_ordered_by_denominator(x as int, 1, p(y as nat) as int);
                    lemma_small_mod(q as nat, m as nat);
                }
                q as u64
            } else {
                let n: u128 = m - 1 - xx;
                let q: u128 = if y >= wl as u64 {
                    proof {
                        lemma_p_mono(wl as nat, y as nat);
                        lemma_div_small(n as nat, p(y as nat));
                    }
                    0
                } else {
                    let s: u128 = pow2_u128(y as u32);
                    n / s
                };
                proof {
                    lemma_pow2_pos(y as nat);
                    lemma_div_is_ordered_by_denominator(n as int, 1, p(y as nat) as int);
                    lemma_floor_div_neg(n as nat, p(y as nat));
                    assert(to_signed(x as nat, wl as nat) == -(n as int) - 1);
                    lemma_from_signed_neg(q as nat, m as nat);
                }
                (m - 1 - q) as u64
            }
        },
        BinOp::Eq => if x == y {
            1
        } else {
            0
        },
        BinOp::Ult => if x < y {
            1
        } else {
            0
        },
        BinOp::Ule => if x <= y {
            1
        } else {
            0
        },
        BinOp::Slt => {
            let lt: bool = if (xx >= h) != (yy >= h) {
                xx >= h
            } else {
                x < y
            };
            if lt {
                1
            } else {
                0
            }
        },
        BinOp::Sle => {
            let le: bool = if (xx >= h) != (yy >= h) {
                xx >= h
            } else {
                x <= y
            };
            if le {
                1
            } else {
                0
            }
        },
        BinOp::UAddO => if xx + yy >= m {
            1
        } else {
            0
        },
        BinOp::SAddO => {
            let sx: i128 = if xx >= h {
                xx as i128 - m as i128
            } else {
                xx as i128
            };
            let sy: i128 = if yy >= h {
                yy as i128 - m as i128
            } else {
                yy as i128
            };
            let s: i128 = sx + sy;
            if s >= h as i128 || s < -(h as i128) {
                1
            } else {
                0
            }
        },
        BinOp::Concat => {
            let s: u128 = pow2_u128(wr);
            proof {
                lemma_concat_bound(x as nat, y as nat, wl as nat, wr as nat);
                lemma_p_mono((wl + wr) as nat, 64);
            }
            assert(xx * s <= 0x1_0000_0000_0000_0000_0000_0000_0000_0000) by (nonlinear_arith)
                requires
                    xx < 0x1_0000_0000_0000_0000,
                    s <= 0x1_0000_0000_0000_0000,
            ;
            (xx * s + yy) as u64
        },
    }
}

/// The constant `value` truncated to `width` bits.
pub open spec fn const_of(value: nat, width: u32) -> DExpr {
    DExpr::Const { width, value: (value % p(width as nat)) as u64 }
}

/// Creates expressions. Expressions carry no reference to the context, so a
/// single context may serve any number of states.
#[derive(Debug, Clone, Copy)]
pub struct DContext {}

impl DContext {
    /// A new context.
    pub fn new() -> (r: DContext) {
        DContext {}
    }

    /// The constant `value` truncated to `width` bits.
    pub fn from_u64(&self, value: u64, width: u32) -> (r: DExpr)
        requires
            1 <= width <= 64,
        ensures
            r.wf(),
            r.width() == width,
            r.is_const(),
            r.const_value() == Some((value as nat % p(width as nat)) as u64),
            r == const_of(value as nat, width),
            forall|env: Env| #[trigger] r.eval(env) == value as nat % p(width as nat),
    {
        let m: u128 = pow2_u128(width);
        proof {
            lemma_p_facts(width as nat);
            lemma_mod_pos_bound(value as int, m as int);
        }
        let v: u128 = (value as u128) % m;
        DExpr::Const { width, value: v as u64 }
    }

    /// The one bit constant 1 for `true` and 0 for `false`.
    pub fn from_bool(&self, b: bool) -> (r: DExpr)
        ensures
            r.wf(),
            r.width() == 1,
            r.is_const(),
            r.const_value() == Some(if b { 1u64 } else { 0u64 }),
            forall|env: Env| #[trigger] r.eval(env) == bit(b),
    {
        proof {
            lemma_p_facts(1);
            lemma_pow2_pos(0);
        }
        DExpr::Const { width: 1, value: if b { 1 } else { 0 } }
    }

    /// The constant zero of the given width.
    pub fn zero(&self, width: u32) -> (r: DExpr)
        requires
            1 <= width <= 64,
        ensures
            r.wf(),
            r.width() == width,
            r.is_const(),
            r.const_value() == Some(0u64),
            forall|env: Env| #[trigger] r.eval(env) == 0,
    {
        proof {
            lemma_p_facts(width as nat);
        }
        DExpr::Const { width, value: 0 }
    }

    /// A value of the given width about which nothing is known, identified by `name`.
    pub fn unconstrained(&self, width: u32, name: &str) -> (r: DExpr)
        requires
            1 <= width <= 64,
        ensures
            r.wf(),
            r.width() == width,
            !r.is_const(),
            forall|env: Env| #[trigger] r.eval(env) == (env.vars)(name@) % p(width as nat),
    {
        DExpr::Symbol { width, name: name.to_owned() }
    }
}

/// Combines two expressions with a binary operator, folding constants.
fn binary(op: BinOp, lhs: &DExpr, rhs: &DExpr) -> (r: DExpr)
    requires
        lhs.wf(),
        rhs.wf(),
        bin_widths_ok(op, lhs.width(), rhs.width()),
    ensures
        r.wf(),
        r.width() == bin_width(op, lhs.width(), rhs.width()),
        forall|env: Env| #[trigger] r.eval(env) == bin_sem(op, lhs.width(), rhs.width(), lhs.eval(env), rhs.eval(env)),
        lhs.is_const() && rhs.is_const() ==> r.is_const(),
{
    let wl: u32 = lhs.len();
    let wr: u32 = rhs.len();
    let width: u32 = if is_predicate_exec(op) {
        1
    } else if op == BinOp::Concat {
        wl + wr
    } else {
        wl
    };
    match (lhs, rhs) {
        (DExpr::Const { value: x, .. }, DExpr::Const { value: y, .. }) => {
            let v: u64 = fold_binary(op, wl, wr, *x, *y);
            proof {
                lemma_bin_sem_range(op, wl as nat, wr as nat, *x as nat, *y as nat);
                lemma_p_facts(1);
            }
            DExpr::Const { width, value: v }
        },
        _ => {
            proof {
                lemma_p_facts(1);
            }
            DExpr::Binary { op, width, lhs: Box::new(lhs.clone()), rhs: Box::new(rhs.clone()) }
        },
    }
}

/// Applies a binary operator to two expressions, folding constants.
pub fn apply_binary(op: BinOp, lhs: &DExpr, rhs: &DExpr) -> (r: DExpr)
    requires
        lhs.wf(),
        rhs.wf(),
        bin_widths_ok(op, lhs.width(), rhs.width()),
    ensures
        r.wf(),
        r.width() == bin_width(op, lhs.width(), rhs.width()),
        forall|env: Env| #[trigger] r.eval(env) == bin_sem(op, lhs.width(), rhs.width(), lhs.eval(env), rhs.eval(env)),
        lhs.is_const() && rhs.is_const() ==> r.is_const(),
{
    binary(op, lhs, rhs)
}

/// Whether the operator compares its operands.
fn is_predicate_exec(op: BinOp) -> (r: bool)
    ensures
        r == is_predicate(op),
{
    match op {
        BinOp::Eq | BinOp::Ult | BinOp::Ule | BinOp::Slt | BinOp::Sle | BinOp::UAddO | BinOp::SAddO => true,
        _ => false,
    }
}

impl DExpr {
    /// The width of the expression in bits.
    pub open spec fn width(self) -> nat {
        match self {
            DExpr::Const { width, .. } => width as nat,
            DExpr::Symbol { width, .. } => width as nat,
            DExpr::Select { .. } => 8,
            DExpr::Not { width, .. } => width as nat,
            DExpr::Binary { width, .. } => width as nat,
            DExpr::Ite { width, .. } => width as nat,
            DExpr::Extract { width, .. } => width as nat,
            DExpr::ZeroExt { width, .. } => width as nat,
            DExpr::SignExt { width, .. } => width as nat,
        }
    }

    /// Well formedness: widths agree and lie between 1 and 64, and constants
    /// fit their width.
    pub open spec fn wf(self) -> bool
        decreases self,
    {
        &&& 1 <= self.width() <= 64
        &&& match self {
            DExpr::Const { width, value } => value < p(width as nat),
            DExpr::Symbol { .. } => true,
            DExpr::Select { index, .. } => index.wf(),
            DExpr::Not { width, arg } => arg.wf() && arg.width() == width,
            DExpr::Binary { op, width, lhs, rhs } => {
                &&& lhs.wf()
                &&& rhs.wf()
                &&& bin_widths_ok(op, lhs.width(), rhs.width())
                &&& width == bin_width(op, lhs.width(), rhs.width())
            },
            DExpr::Ite { width, cond, then_branch, else_branch } => {
                &&& cond.wf()
                &&& then_branch.wf()
                &&& else_branch.wf()
                &&& cond.width() == 1
                &&& then_branch.width() == width
                &&& else_branch.width() == width
            },
            DExpr::Extract { low, width, arg } => arg.wf() && low + width <= arg.width(),
            DExpr::ZeroExt { width, arg } => arg.wf() && arg.width() <= width,
            DExpr::SignExt { width, arg } => arg.wf() && arg.width() <= width,
        }
    }

    /// The value of the expression under an assignment.
    pub open spec fn eval(self, env: Env) -> nat
        decreases self,
    {
        match self {
            DExpr::Const { value, .. } => value as nat,
            DExpr::Symbol { width, name } => (env.vars)(name@) % p(width as nat),
            DExpr::Select { array, index } => (env.arrays)(array@, index.eval(env)) % 256,
            DExpr::Not { width, arg } => (p(width as nat) - 1 - arg.eval(env)) as nat,
            DExpr::Binary { op, lhs, rhs, .. } => bin_sem(
                op,
                lhs.width(),
                rhs.width(),
                lhs.eval(env),
                rhs.eval(env),
            ),
            DExpr::Ite { cond, then_branch, else_branch, .. } => if cond.eval(env) != 0 {
                then_branch.eval(env)
            } else {
                else_branch.eval(env)
            },
            DExpr::Extract { low, width, arg } => (arg.eval(env) / p(low as nat)) % p(width as nat),
            DExpr::ZeroExt { arg, .. } => arg.eval(env),
            DExpr::SignExt { width, arg } => sign_extend(arg.eval(env), arg.width(), width as nat),
        }
    }

    /// Whether the expression is a constant.
    pub open spec fn is_const(self) -> bool {
        self is Const
    }

    /// The value of a constant expression.
    pub open spec fn const_value(self) -> Option<u64> {
        match self {
            DExpr::Const { value, .. } => Some(value),
            _ => None,
        }
    }

    /// Whether the expression has the same value as `other` under every assignment.
    pub open spec fn equivalent(self, other: DExpr) -> bool {
        forall|env: Env| #[trigger] self.eval(env) == other.eval(env)
    }


    /// Wrapping addition.
    pub fn add(&self, other: &DExpr) -> (r: DExpr)
        requires
            self.wf(),
            other.wf(),
            self.width() == other.width(),
        ensures
            r.wf(),
            r.width() == self.width(),
            forall|env: Env| #[trigger] r.eval(env) == (self.eval(env) + other.eval(env)) % p(self.width()),
            self.is_const() && other.is_const() ==> r.is_const(),
    {
        binary(BinOp::Add, self, other)
    }

    /// Wrapping subtraction.
    pub fn sub(&self, other: &DExpr) -> (r: DExpr)
        requires
            self.wf(),
            other.wf(),
            self.width() == other.width(),
        ensures
            r.wf(),
            r.width() == self.width(),
            forall|env: Env| #[trigger] r.eval(env) == ((self.eval(env) - other.eval(env)) % (p(self.width()) as int)) as nat,
            self.is_const() && other.is_const() ==> r.is_const(),
    {
        binary(BinOp::Sub, self, other)
    }

    /// Wrapping multiplication.
    pub fn mul(&self, other: &DExpr) -> (r: DExpr)
        requires
            self.wf(),
            other.wf(),
            self.width() == other.width(),
        ensures
            r.wf(),
            r.width() == self.width(),
            forall|env: Env| #[trigger] r.eval(env) == (self.eval(env) * other.eval(env)) % p(self.width()),
            self.is_const() && other.is_const() ==> r.is_const(),
    {
        binary(BinOp::Mul, self, other)
    }

    /// Unsigned division; division by zero gives all ones.
    pub fn udiv(&self, other: &DExpr) -> (r: DExpr)
        requires
            self.wf(),
            other.wf(),
            self.width() == other.width(),
        ensures
            r.wf(),
            r.width() == self.width(),
            forall|env: Env| #[trigger] r.eval(env) == if other.eval(env) == 0 { (p(self.width()) - 1) as nat } else { self.eval(env) / other.eval(env) },
            self.is_const() && other.is_const() ==> r.is_const(),
    {
        binary(BinOp::UDiv, self, other)
    }

    /// Unsigned remainder; the remainder of a division by zero is the dividend.
    pub fn urem(&self, other: &DExpr) -> (r: DExpr)
        requires
            self.wf(),
            other.wf(),
            self.width() == other.width(),
        ensures
            r.wf(),
            r.width() == self.width(),
            forall|env: Env| #[trigger] r.eval(env) == if other.eval(env) == 0 { self.eval(env) } else { self.eval(env) % other.eval(env) },
            self.is_const() && other.is_const() ==> r.is_const(),
    {
        binary(BinOp::URem, self, other)
    }

    /// Signed division rounding towards zero.
    pub fn sdiv(&self, other: &DExpr) -> (r: DExpr)
        requires
            self.wf(),
            other.wf(),
            self.width() == other.width(),
        ensures
            r.wf(),
            r.width() == self.width(),
            forall|env: Env| #[trigger] r.eval(env) == from_signed(sdiv_int(to_signed(self.eval(env), self.width()), to_signed(other.eval(env), self.width())), self.width()),
            self.is_const() && other.is_const() ==> r.is_const(),
    {
        binary(BinOp::SDiv, self, other)
    }

    /// Signed remainder, with the sign of the dividend.
    pub fn srem(&self, other: &DExpr) -> (r: DExpr)
        requires
            self.wf(),
            other.wf(),
            self.width() == other.width(),
        ensures
            r.wf(),
            r.width() == self.width(),
            forall|env: Env| #[trigger] r.eval(env) == from_signed(srem_int(to_signed(self.eval(env), self.width()), to_signed(other.eval(env), self.width())), self.width()),
            self.is_const() && other.is_const() ==> r.is_const(),
    {
        binary(BinOp::SRem, self, other)
    }

    /// Bitwise and.
    pub fn and(&self, other: &DExpr) -> (r: DExpr)
        requires
            self.wf(),
            other.wf(),
            self.width() == other.width(),
        ensures
            r.wf(),
            r.width() == self.width(),
            forall|env: Env| #[trigger] r.eval(env) == ((self.eval(env) as u64) & (other.eval(env) as u64)) as nat,
            self.is_const() && other.is_const() ==> r.is_const(),
    {
        binary(BinOp::And, self, other)
    }

    /// Bitwise or.
    pub fn or(&self, other: &DExpr) -> (r: DExpr)
        requires
            self.wf(),
            other.wf(),
            self.width() == other.width(),
        ensures
            r.wf(),
            r.width() == self.width(),
            forall|env: Env| #[trigger] r.eval(env) == ((self.eval(env) as u64) | (other.eval(env) as u64)) as nat,
            self.is_const() && other.is_const() ==> r.is_const(),
    {
        binary(BinOp::Or, self, other)
    }

    /// Bitwise exclusive or.
    pub fn xor(&self, other: &DExpr) -> (r: DExpr)
        requires
            self.wf(),
            other.wf(),
            self.width() == other.width(),
        ensures
            r.wf(),
            r.width() == self.width(),
            forall|env: Env| #[trigger] r.eval(env) == ((self.eval(env) as u64) ^ (other.eval(env) as u64)) as nat,
            self.is_const() && other.is_const() ==> r.is_const(),
    {
        binary(BinOp::Xor, self, other)
    }

    /// Shift left by `other` bits; shifting by the width or more gives zero.
    pub fn sll(&self, other: &DExpr) -> (r: DExpr)
        requires
            self.wf(),
            other.wf(),
            self.width() == other.width(),
        ensures
            r.wf(),
            r.width() == self.width(),
            forall|env: Env| #[trigger] r.eval(env) == (self.eval(env) * p(other.eval(env))) % p(self.width()),
            self.is_const() && other.is_const() ==> r.is_const(),
    {
        binary(BinOp::Shl, self, other)
    }

    /// Logical shift right by `other` bits.
    pub fn srl(&self, other: &DExpr) -> (r: DExpr)
        requires
            self.wf(),
            other.wf(),
            self.width() == other.width(),
        ensures
            r.wf(),
            r.width() == self.width(),
            forall|env: Env| #[trigger] r.eval(env) == self.eval(env) / p(other.eval(env)),
            self.is_const() && other.is_const() ==> r.is_const(),
    {
        binary(BinOp::LShr, self, other)
    }

    /// Arithmetic shift right by `other` bits.
    pub fn sra(&self, other: &DExpr) -> (r: DExpr)
        requires
            self.wf(),
            other.wf(),
            self.width() == other.width(),
        ensures
            r.wf(),
            r.width() == self.width(),
            forall|env: Env| #[trigger] r.eval(env) == from_signed(to_signed(self.eval(env), self.width()) / (p(other.eval(env)) as int), self.width()),
            self.is_const() && other.is_const() ==> r.is_const(),
    {
        binary(BinOp::AShr, self, other)
    }

    /// One bit: whether the operands are equal.
    pub fn _eq(&self, other: &DExpr) -> (r: DExpr)
        requires
            self.wf(),
            other.wf(),
            self.width() == other.width(),
        ensures
            r.wf(),
            r.width() == 1,
            forall|env: Env| #[trigger] r.eval(env) == bit(self.eval(env) == other.eval(env)),
            self.is_const() && other.is_const() ==> r.is_const(),
    {
        binary(BinOp::Eq, self, other)
    }

    /// One bit: unsigned less than.
    pub fn ult(&self, other: &DExpr) -> (r: DExpr)
        requires
            self.wf(),
            other.wf(),
            self.width() == other.width(),
        ensures
            r.wf(),
            r.width() == 1,
            forall|env: Env| #[trigger] r.eval(env) == bit(self.eval(env) < other.eval(env)),
            self.is_const() && other.is_const() ==> r.is_const(),
    {
        binary(BinOp::Ult, self, other)
    }

    /// One bit: unsigned less than or equal.
    pub fn ulte(&self, other: &DExpr) -> (r: DExpr)
        requires
            self.wf(),
            other.wf(),
            self.width() == other.width(),
        ensures
            r.wf(),
            r.width() == 1,
            forall|env: Env| #[trigger] r.eval(env) == bit(self.eval(env) <= other.eval(env)),
            self.is_const() && other.is_const() ==> r.is_const(),
    {
        binary(BinOp::Ule, self, other)
    }

    /// One bit: signed less than.
    pub fn slt(&self, other: &DExpr) -> (r: DExpr)
        requires
            self.wf(),
            other.wf(),
            self.width() == other.width(),
        ensures
            r.wf(),
            r.width() == 1,
            forall|env: Env| #[trigger] r.eval(env) == bit(to_signed(self.eval(env), self.width()) < to_signed(other.eval(env), self.width())),
            self.is_const() && other.is_const() ==> r.is_const(),
    {
        binary(BinOp::Slt, self, other)
    }

    /// One bit: signed less than or equal.
    pub fn slte(&self, other: &DExpr) -> (r: DExpr)
        requires
            self.wf(),
            other.wf(),
            self.width() == other.width(),
        ensures
            r.wf(),
            r.width() == 1,
            forall|env: Env| #[trigger] r.eval(env) == bit(to_signed(self.eval(env), self.width()) <= to_signed(other.eval(env), self.width())),
            self.is_const() && other.is_const() ==> r.is_const(),
    {
        binary(BinOp::Sle, self, other)
    }

    /// One bit: whether the unsigned sum overflows.
    pub fn uaddo(&self, other: &DExpr) -> (r: DExpr)
        requires
            self.wf(),
            other.wf(),
            self.width() == other.width(),
        ensures
            r.wf(),
            r.width() == 1,
            forall|env: Env| #[trigger] r.eval(env) == bit(self.eval(env) + other.eval(env) >= p(self.width())),
            self.is_const() && other.is_const() ==> r.is_const(),
    {
        binary(BinOp::UAddO, self, other)
    }

    /// One bit: whether the signed sum overflows.
    pub fn saddo(&self, other: &DExpr) -> (r: DExpr)
        requires
            self.wf(),
            other.wf(),
            self.width() == other.width(),
        ensures
            r.wf(),
            r.width() == 1,
            forall|env: Env| #[trigger] r.eval(env) == bit(to_signed(self.eval(env), self.width()) + to_signed(other.eval(env), self.width()) >= p((self.width() - 1) as nat) || to_signed(self.eval(env), self.width()) + to_signed(other.eval(env), self.width()) < -(p((self.width() - 1) as nat) as int)),
            self.is_const() && other.is_const() ==> r.is_const(),
    {
        binary(BinOp::SAddO, self, other)
    }

    /// `self` above `other`.
    pub fn concat(&self, other: &DExpr) -> (r: DExpr)
        requires
            self.wf(),
            other.wf(),
            self.width() + other.width() <= 64,
        ensures
            r.wf(),
            r.width() == self.width() + other.width(),
            forall|env: Env| #[trigger] r.eval(env) == self.eval(env) * p(other.width()) + other.eval(env),
            self.is_const() && other.is_const() ==> r.is_const(),
    {
        binary(BinOp::Concat, self, other)
    }

    /// One bit: unsigned greater than.
    pub fn ugt(&self, other: &DExpr) -> (r: DExpr)
        requires
            self.wf(),
            other.wf(),
            self.width() == other.width(),
        ensures
            r.wf(),
            r.width() == 1,
            forall|env: Env| #[trigger] r.eval(env) == bit(self.eval(env) > other.eval(env)),
            self.is_const() && other.is_const() ==> r.is_const(),
    {
        binary(BinOp::Ult, other, self)
    }

    /// One bit: unsigned greater than or equal.
    pub fn ugte(&self, other: &DExpr) -> (r: DExpr)
        requires
            self.wf(),
            other.wf(),
            self.width() == other.width(),
        ensures
            r.wf(),
            r.width() == 1,
            forall|env: Env| #[trigger] r.eval(env) == bit(self.eval(env) >= other.eval(env)),
            self.is_const() && other.is_const() ==> r.is_const(),
    {
        binary(BinOp::Ule, other, self)
    }

    /// One bit: whether the operands differ.
    pub fn _ne(&self, other: &DExpr) -> (r: DExpr)
        requires
            self.wf(),
            other.wf(),
            self.width() == other.width(),
        ensures
            r.wf(),
            r.width() == 1,
            forall|env: Env| #[trigger] r.eval(env) == bit(self.eval(env) != other.eval(env)),
            self.is_const() && other.is_const() ==> r.is_const(),
    {
        let e: DExpr = binary(BinOp::Eq, self, other);
        let r: DExpr = e.not();
        proof {
            vstd::arithmetic::power2::lemma2_to64();
            assert forall|env: Env| #[trigger] r.eval(env) == bit(self.eval(env) != other.eval(env)) by {
                assert(r.eval(env) == (p(1) - 1 - e.eval(env)) as nat);
            }
        }
        r
    }

    /// Bitwise complement.
    pub fn not(&self) -> (r: DExpr)
        requires
            self.wf(),
        ensures
            r.wf(),
            r.width() == self.width(),
            forall|env: Env| #[trigger] r.eval(env) == (p(self.width()) - 1 - self.eval(env)) as nat,
            self.is_const() ==> r.is_const(),
    {
        let w: u32 = self.len();
        match self {
            DExpr::Const { value, .. } => {
                let m: u128 = pow2_u128(w);
                proof {
                    lemma_p_facts(w as nat);
                }
                let v: u128 = m - 1 - *value as u128;
                DExpr::Const { width: w, value: v as u64 }
            },
            _ => DExpr::Not { width: w, arg: Box::new(self.clone()) },
        }
    }

    /// If `self` (one bit) is non-zero then `then_e` else `else_e`.
    pub fn ite(&self, then_e: &DExpr, else_e: &DExpr) -> (r: DExpr)
        requires
            self.wf(),
            then_e.wf(),
            else_e.wf(),
            self.width() == 1,
            then_e.width() == else_e.width(),
        ensures
            r.wf(),
            r.width() == then_e.width(),
            forall|env: Env| #[trigger] r.eval(env) == if self.eval(env) != 0 {
                then_e.eval(env)
            } else {
                else_e.eval(env)
            },
            self.is_const() && then_e.is_const() && else_e.is_const() ==> r.is_const(),
            self.is_const() && self.const_value() != Some(0u64) ==> r == *then_e,
            self.const_value() == Some(0u64) ==> r == *else_e,
    {
        match self {
            DExpr::Const { value, .. } => if *value != 0 {
                then_e.clone()
            } else {
                else_e.clone()
            },
            _ => DExpr::Ite {
                width: then_e.len(),
                cond: Box::new(self.clone()),
                then_branch: Box::new(then_e.clone()),
                else_branch: Box::new(else_e.clone()),
            },
        }
    }

    /// Bits `low ..= high` of the expression.
    pub fn slice(&self, low: u32, high: u32) -> (r: DExpr)
        requires
            self.wf(),
            low <= high < self.width(),
        ensures
            r.wf(),
            r.width() == high - low + 1,
            forall|env: Env| #[trigger] r.eval(env) == (self.eval(env) / p(low as nat)) % p((high - low + 1) as nat),
            self.is_const() ==> r.is_const(),
    {
        let width: u32 = high - low + 1;
        match self {
            DExpr::Const { value, .. } => {
                let s: u128 = pow2_u128(low);
                let m: u128 = pow2_u128(width);
                proof {
                    lemma_mod_pos_bound((*value as u128 / s) as int, m as int);
                    lemma_p_mono(width as nat, 64);
                    lemma_p_facts(64);
                }
                let v: u128 = (*value as u128 / s) % m;
                DExpr::Const { width, value: v as u64 }
            },
            _ => DExpr::Extract { low, width, arg: Box::new(self.clone()) },
        }
    }

    /// The expression widened to `width` bits with zero bits.
    pub fn zero_ext(&self, width: u32) -> (r: DExpr)
        requires
            self.wf(),
            self.width() <= width <= 64,
        ensures
            r.wf(),
            r.width() == width,
            forall|env: Env| #[trigger] r.eval(env) == self.eval(env),
            self.is_const() ==> r.is_const(),
    {
        match self {
            DExpr::Const { value, width: w0 } => {
                proof {
                    lemma_p_mono(*w0 as nat, width as nat);
                }
                DExpr::Const { width, value: *value }
            },
            _ => DExpr::ZeroExt { width, arg: Box::new(self.clone()) },
        }
    }

    /// The expression widened to `width` bits with copies of its sign bit.
    pub fn sign_ext(&self, width: u32) -> (r: DExpr)
        requires
            self.wf(),
            self.width() <= width <= 64,
        ensures
            r.wf(),
            r.width() == width,
            forall|env: Env| #[trigger] r.eval(env) == sign_extend(self.eval(env), self.width(), width as nat),
            self.is_const() ==> r.is_const(),
    {
        match self {
            DExpr::Const { value, width: w0 } => {
                let h: u128 = pow2_u128(*w0 - 1);
                let m0: u128 = pow2_u128(*w0);
                let m: u128 = pow2_u128(width);
                proof {
                    lemma_p_mono(*w0 as nat, width as nat);
                    lemma_p_facts(*w0 as nat);
                    lemma_p_facts(width as nat);
                }
                let v: u128 = if (*value as u128) >= h {
                    *value as u128 + m - m0
                } else {
                    *value as u128
                };
                DExpr::Const { width, value: v as u64 }
            },
            _ => DExpr::SignExt { width, arg: Box::new(self.clone()) },
        }
    }

    /// The expression truncated or zero extended to `bits` bits.
    pub fn resize_unsigned(&self, bits: u32) -> (r: DExpr)
        requires
            self.wf(),
            1 <= bits <= 64,
        ensures
            r.wf(),
            r.width() == bits,
            forall|env: Env| #[trigger] r.eval(env) == self.eval(env) % p(bits as nat),
            self.is_const() ==> r.is_const(),
    {
        let w: u32 = self.len();
        proof {
            vstd::arithmetic::power2::lemma2_to64();
            assert(p(0) == 1);
            assert forall|env: Env| #[trigger] self.eval(env) / p(0) == self.eval(env) by {
                assert(self.eval(env) / 1 == self.eval(env));
            }
        }
        if bits < w {
            self.slice(0, bits - 1)
        } else {
            let r: DExpr = self.zero_ext(bits);
            proof {
                assert forall|env: Env| #[trigger] r.eval(env) == self.eval(env) % p(bits as nat) by {
                    lemma_eval_range(*self, env);
                    lemma_p_mono(w as nat, bits as nat);
                    lemma_small_mod(self.eval(env), p(bits as nat));
                }
            }
            r
        }
    }

    /// An equivalent expression.
    pub fn simplify(&self) -> (r: DExpr)
        requires
            self.wf(),
        ensures
            r.wf(),
            r.width() == self.width(),
            r.equivalent(*self),
            self.is_const() ==> r.is_const(),
            r == *self,
    {
        self.clone()
    }

    /// The width of the expression in bits.
    pub fn len(&self) -> (r: u32)
        ensures
            r == self.width(),
    {
        match self {
            DExpr::Const { width, .. } => *width,
            DExpr::Symbol { width, .. } => *width,
            DExpr::Select { .. } => 8,
            DExpr::Not { width, .. } => *width,
            DExpr::Binary { width, .. } => *width,
            DExpr::Ite { width, .. } => *width,
            DExpr::Extract { width, .. } => *width,
            DExpr::ZeroExt { width, .. } => *width,
            DExpr::SignExt { width, .. } => *width,
        }
    }

    /// The value of the expression if it is a constant.
    pub fn get_constant(&self) -> (r: Option<u64>)
        ensures
            r == self.const_value(),
    {
        match self {
            DExpr::Const { value, .. } => Some(*value),
            _ => None,
        }
    }

    /// The truth value of a one bit constant.
    pub fn get_constant_bool(&self) -> (r: Option<bool>)
        ensures
            r == (if self.is_const() && self.width() == 1 {
                Some(self.const_value().unwrap() == 1)
            } else {
                None
            }),
    {
        match self {
            DExpr::Const { width, value } => if *width == 1 {
                Some(*value == 1)
            } else {
                None
            },
            _ => None,
        }
    }
}

impl Clone for DExpr {
    fn clone(&self) -> (r: DExpr)
        ensures
            r == *self,
        decreases *self,
    {
        match self {
            DExpr::Const { width, value } => DExpr::Const { width: *width, value: *value },
            DExpr::Symbol { width, name } => DExpr::Symbol { width: *width, name: name.clone() },
            DExpr::Select { array, index } => DExpr::Select {
                array: array.clone(),
                index: Box::new((**index).clone()),
            },
            DExpr::Not { width, arg } => DExpr::Not { width: *width, arg: Box::new((**arg).clone()) },
            DExpr::Binary { op, width, lhs, rhs } => DExpr::Binary {
                op: *op,
                width: *width,
                lhs: Box::new((**lhs).clone()),
                rhs: Box::new((**rhs).clone()),
            },
            DExpr::Ite { width, cond, then_branch, else_branch } => DExpr::Ite {
                width: *width,
                cond: Box::new((**cond).clone()),
                then_branch: Box::new((**then_branch).clone()),
                else_branch: Box::new((**else_branch).clone()),
            },
            DExpr::Extract { low, width, arg } => DExpr::Extract {
                low: *low,
                width: *width,
                arg: Box::new((**arg).clone()),
            },
            DExpr::ZeroExt { width, arg } => DExpr::ZeroExt {
                width: *width,
                arg: Box::new((**arg).clone()),
            },
            DExpr::SignExt { width, arg } => DExpr::SignExt {
                width: *width,
                arg: Box::new((**arg).clone()),
            },
        }
    }
}

} // verus!
