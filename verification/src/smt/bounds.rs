//! Upper bounds of expressions under constraints, by interval reasoning:
//! a constraint `s <u k` or `s <=u k` on a symbol `s` bounds the symbol,
//! and bounds follow through additions without overflow, bitwise ands,
//! right shifts by constants and unsigned comparisons.
use vstd::prelude::*;
use vstd::arithmetic::div_mod::{lemma_div_is_ordered, lemma_small_mod};
use crate::smt::bits::{p, lemma_p_facts, pow2_u128};
use crate::smt::expr::{BinOp, DExpr, Env, bin_sem, bit, lemma_eval_range};
use crate::smt::solver::all_hold;

verus! {

/// The largest value of `w` bits.
fn full(w: u32) -> (r: u64)
    requires
        1 <= w <= 64,
    ensures
        r as nat == p(w as nat) - 1,
{
    let m: u128 = pow2_u128(w);
    proof {
        lemma_p_facts(w as nat);
    }
    (m - 1) as u64
}

/// What a constraint says of the symbol `name` of `width` bits: the bound
/// `k - 1` of a constraint `name <u k`, the bound `k` of `name <=u k`.
pub open spec fn bound_from(c: DExpr, name: Seq<char>, width: u32) -> Option<nat> {
    match c {
        DExpr::Binary { op, lhs, rhs, .. } => match (*lhs, *rhs) {
            (DExpr::Symbol { name: n, width: w }, DExpr::Const { value, .. }) => if n@ == name && w == width {
                if op == BinOp::Ult && value > 0 {
                    Some((value - 1) as nat)
                } else if op == BinOp::Ule {
                    Some(value as nat)
                } else {
                    None
                }
            } else {
                None
            },
            _ => None,
        },
        _ => None,
    }
}

/// A bound of the symbol `name` of `width` bits from the constraints: the
/// smallest that some constraint gives, or the largest value of its width.
fn symbol_bound(assertions: &Vec<DExpr>, name: &String, width: u32) -> (r: u64)
    requires
        1 <= width <= 64,
        forall|i: int| 0 <= i < assertions@.len() ==> (#[trigger] assertions@[i]).wf(),
    ensures
        forall|env: Env| all_hold(assertions@, env) ==> (env.vars)(name@) % p(width as nat) <= r,
{
    let mut r: u64 = full(width);
    let mut i: usize = 0;
    while i < assertions.len()
        invariant
            i <= assertions@.len(),
            1 <= width <= 64,
            forall|k: int| 0 <= k < assertions@.len() ==> (#[trigger] assertions@[k]).wf(),
            forall|env: Env| all_hold(assertions@, env) ==> (env.vars)(name@) % p(width as nat) <= r,
        decreases assertions.len() - i,
    {
        let c: &DExpr = &assertions[i];
        let bound: Option<u64> = match c {
            DExpr::Binary { op, lhs, rhs, .. } => match (&**lhs, &**rhs) {
                (DExpr::Symbol { name: n, width: w }, DExpr::Const { value, .. }) => {
                    if *n == *name && *w == width {
                        proof {
                            assert forall|env: Env| all_hold(assertions@, env) implies (*c).eval(env) != 0 by {
                                assert(assertions@[i as int].eval(env) != 0);
                            }
                            assert forall|env: Env| #[trigger] (*c).eval(env) == bin_sem(
                                *op,
                                lhs.width(),
                                rhs.width(),
                                (env.vars)(name@) % p(width as nat),
                                *value as nat,
                            ) by {
                                assert(lhs.eval(env) == (env.vars)(name@) % p(width as nat));
                                assert(rhs.eval(env) == *value as nat);
                            }
                        }
                        match op {
                            BinOp::Ult => if *value > 0 {
                                Some(*value - 1)
                            } else {
                                None
                            },
                            BinOp::Ule => Some(*value),
                            _ => None,
                        }
                    } else {
                        None
                    }
                },
                _ => None,
            },
            _ => None,
        };
        proof {
            if bound is Some {
                assert forall|env: Env| all_hold(assertions@, env) implies (env.vars)(name@) % p(width as nat)
                    <= bound.unwrap() by {
                    assert(assertions@[i as int].eval(env) != 0);
                }
            }
        }
        match bound {
            Some(b) => {
                if b < r {
                    r = b;
                }
            },
            None => {},
        }
        i = i + 1;
    }
    r
}

/// A value that `e` is never below: a constant's value, else zero.
fn lower_bound(e: &DExpr) -> (r: u64)
    ensures
        forall|env: Env| r <= e.eval(env),
        r == match *e {
            DExpr::Const { value, .. } => value,
            _ => 0u64,
        },
{
    match e {
        DExpr::Const { value, .. } => *value,
        _ => 0,
    }
}

/// A value that `e` never exceeds under an assignment that satisfies the
/// constraints.
pub fn upper_bound(e: &DExpr, assertions: &Vec<DExpr>) -> (r: u64)
    requires
        e.wf(),
        forall|i: int| 0 <= i < assertions@.len() ==> (#[trigger] assertions@[i]).wf(),
    ensures
        forall|env: Env| all_hold(assertions@, env) ==> e.eval(env) <= r,
    decreases e,
{
    proof {
        assert forall|env: Env| e.eval(env) <= p(e.width()) - 1 by {
            lemma_eval_range(*e, env);
        }
    }
    match e {
        DExpr::Const { value, .. } => *value,
        DExpr::Symbol { width, name } => symbol_bound(assertions, name, *width),
        DExpr::Binary { op, width, lhs, rhs } => match op {
            BinOp::And => {
                let a: u64 = upper_bound(lhs, assertions);
                let b: u64 = upper_bound(rhs, assertions);
                proof {
                    assert forall|env: Env| all_hold(assertions@, env) implies e.eval(env) <= a && e.eval(env) <= b by {
                        lemma_eval_range(**lhs, env);
                        lemma_eval_range(**rhs, env);
                        lemma_p_facts(lhs.width());
                        lemma_p_facts(rhs.width());
                        let x: u64 = lhs.eval(env) as u64;
                        let y: u64 = rhs.eval(env) as u64;
                        assert((x & y) <= x && (x & y) <= y) by (bit_vector);
                    }
                }
                if a < b {
                    a
                } else {
                    b
                }
            },
            BinOp::LShr => match &**rhs {
                DExpr::Const { value: k, .. } => {
                    let a: u64 = upper_bound(lhs, assertions);
                    if *k >= 64 {
                        proof {
                            assert forall|env: Env| all_hold(assertions@, env) implies e.eval(env) <= 0 by {
                                assert(rhs.eval(env) == *k as nat);
                                assert(e.eval(env) == lhs.eval(env) / p(*k as nat));
                                lemma_eval_range(**lhs, env);
                                lemma_p_facts(lhs.width());
                                if *k > 64 {
                                    vstd::arithmetic::power2::lemma_pow2_strictly_increases(64, *k as nat);
                                }
                                lemma_p_facts(64);
                                vstd::arithmetic::div_mod::lemma_basic_div(lhs.eval(env) as int, p(*k as nat) as int);
                            }
                        }
                        0
                    } else {
                        let m: u128 = pow2_u128(*k as u32);
                        proof {
                            assert forall|env: Env| all_hold(assertions@, env) implies e.eval(env) <= a as nat / p(*k as nat) by {
                                assert(rhs.eval(env) == *k as nat);
                                assert(e.eval(env) == lhs.eval(env) / p(*k as nat));
                                lemma_p_facts(*k as nat);
                                lemma_div_is_ordered(lhs.eval(env) as int, a as int, p(*k as nat) as int);
                            }
                            vstd::arithmetic::div_mod::lemma_div_is_ordered_by_denominator(a as int, 1, p(*k as nat) as int);
                        }
                        ((a as u128) / m) as u64
                    }
                },
                _ => full(*width),
            },
            BinOp::Add => {
                let a: u64 = upper_bound(lhs, assertions);
                let b: u64 = upper_bound(rhs, assertions);
                let m: u128 = pow2_u128(*width);
                proof {
                    lemma_p_facts(*width as nat);
                }
                if (a as u128) + (b as u128) < m {
                    proof {
                        assert forall|env: Env| all_hold(assertions@, env) implies e.eval(env) <= a + b by {
                            lemma_small_mod(lhs.eval(env) + rhs.eval(env), p(*width as nat));
                        }
                    }
                    a + b
                } else {
                    full(*width)
                }
            },
            BinOp::Ult => {
                let lo: u64 = lower_bound(lhs);
                let hi: u64 = upper_bound(rhs, assertions);
                if lo >= hi {
                    proof {
                        assert forall|env: Env| all_hold(assertions@, env) implies e.eval(env) <= 0 by {
                            assert(!(lhs.eval(env) < rhs.eval(env)));
                        }
                    }
                    0
                } else {
                    1
                }
            },
            BinOp::Ule => {
                let lo: u64 = lower_bound(lhs);
                let hi: u64 = upper_bound(rhs, assertions);
                if lo > hi {
                    proof {
                        assert forall|env: Env| all_hold(assertions@, env) implies e.eval(env) <= 0 by {
                            assert(!(lhs.eval(env) <= rhs.eval(env)));
                        }
                    }
                    0
                } else {
                    1
                }
            },
            _ => full(*width),
        },
        _ => full(e.len()),
    }
}

} // verus!
