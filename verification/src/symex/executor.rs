//! Executes general assembly operations over bit-vector expressions.
use vstd::prelude::*;
use vstd::arithmetic::power2::{pow2, lemma_pow2_pos, lemma2_to64};
use vstd::arithmetic::div_mod::{lemma_small_mod, lemma_mod_pos_bound};
use crate::smt::bits::{p, to_signed, lemma_p_facts, lemma_p_mono};
use crate::smt::expr::{DContext, DExpr, Env, bit, lemma_eval_range};

verus! {

/// Bit `i` of `x`.
pub open spec fn bit_of(x: nat, i: nat) -> nat {
    (x / p(i)) % 2
}

/// The number of ones among the low `n` bits of `x`.
pub open spec fn popcount(x: nat, n: nat) -> nat
    decreases n,
{
    if n == 0 {
        0
    } else {
        popcount(x, (n - 1) as nat) + bit_of(x, (n - 1) as nat)
    }
}

/// The number of leading ones among the top `k` bits of the `w` bit value
/// `x`: the length of the run of ones that starts at bit `w - 1`, capped at `k`.
pub open spec fn leading_ones(x: nat, w: nat, k: nat) -> nat
    decreases k,
{
    if k == 0 {
        0
    } else {
        let prev = leading_ones(x, w, (k - 1) as nat);
        if prev == k - 1 && bit_of(x, (w - k) as nat) == 1 {
            k
        } else {
            prev
        }
    }
}

/// The complement of the `w` bit value `x`.
pub open spec fn complement(x: nat, w: nat) -> nat {
    (p(w) - 1 - x) as nat
}

/// A natural number is smaller than two to its power.
pub proof fn lemma_lt_pow2(n: nat)
    ensures
        n < p(n),
    decreases n,
{
    lemma_pow2_pos(n);
    if n > 0 {
        lemma_lt_pow2((n - 1) as nat);
        vstd::arithmetic::power2::lemma_pow2_unfold(n);
    }
}

/// A bit is zero or one.
pub proof fn lemma_bit_of_le1(x: nat, i: nat)
    ensures
        bit_of(x, i) <= 1,
{
    lemma_pow2_pos(i);
    lemma_mod_pos_bound((x / p(i)) as int, 2);
}

/// The population count of `n` bits is at most `n`.
pub proof fn lemma_popcount_le(x: nat, n: nat)
    ensures
        popcount(x, n) <= n,
    decreases n,
{
    if n > 0 {
        lemma_popcount_le(x, (n - 1) as nat);
        lemma_bit_of_le1(x, (n - 1) as nat);
    }
}

/// A value below `0x100` has at most eight ones, however many bits are
/// counted: the bits from the ninth up are zero.
pub proof fn law_popcount_of_byte(x: nat, n: nat)
    requires
        x < 0x100,
    ensures
        popcount(x, n) <= 8,
    decreases n,
{
    if n <= 8 {
        lemma_popcount_le(x, n);
    } else {
        law_popcount_of_byte(x, (n - 1) as nat);
        lemma2_to64();
        lemma_p_mono(8, (n - 1) as nat);
        vstd::arithmetic::div_mod::lemma_basic_div(x as int, p((n - 1) as nat) as int);
        assert(bit_of(x, (n - 1) as nat) == 0);
    }
}

/// The run of leading ones among `k` bits is at most `k` long.
pub proof fn lemma_leading_ones_le(x: nat, w: nat, k: nat)
    ensures
        leading_ones(x, w, k) <= k,
    decreases k,
{
    if k > 0 {
        lemma_leading_ones_le(x, w, (k - 1) as nat);
    }
}

/// Extracting the low bit of a value with a one bit mask.
proof fn lemma_and_one(v: u64)
    ensures
        (v & 1) as nat == v as nat % 2,
{
    assert(v & 1 == v % 2) by (bit_vector);
}

/// Masking two single bits.
pub proof fn lemma_and_bits(a: u64, b: u64)
    requires
        a <= 1,
        b <= 1,
    ensures
        (a & b) as nat == if a == 1 && b == 1 { 1nat } else { 0nat },
{
    assert(a <= 1 && b <= 1 ==> (a & b) == (if a == 1 && b == 1 { 1u64 } else { 0u64 })) by (bit_vector);
}

/// Or of two single bits.
pub proof fn lemma_or_bits(a: u64, b: u64)
    requires
        a <= 1,
        b <= 1,
    ensures
        (a | b) as nat == if a == 1 || b == 1 { 1nat } else { 0nat },
{
    assert(a <= 1 && b <= 1 ==> (a | b) == (if a == 1 || b == 1 { 1u64 } else { 0u64 })) by (bit_vector);
}

/// Bit `n` of `x` as the expression `(x >> n) & 1`.
fn bit_expr(input: &DExpr, ctx: &DContext, word_size: u32, n: u32, mask: &DExpr) -> (r: DExpr)
    requires
        input.wf(),
        input.width() == word_size,
        1 <= word_size <= 64,
        n < word_size,
        mask.wf(),
        mask.width() == word_size,
        forall|env: Env| #[trigger] mask.eval(env) == 1,
        mask.is_const(),
    ensures
        r.wf(),
        r.width() == word_size,
        forall|env: Env| #[trigger] r.eval(env) == bit_of(input.eval(env), n as nat),
        input.is_const() ==> r.is_const(),
{
    let symbolic_n: DExpr = ctx.from_u64(n as u64, word_size);
    proof {
        lemma_lt_pow2(word_size as nat);
        vstd::arithmetic::power2::lemma_pow2_strictly_increases(n as nat, word_size as nat);
        lemma_small_mod(n as nat, p(word_size as nat));
    }
    let shifted: DExpr = input.srl(&symbolic_n);
    let r: DExpr = shifted.and(mask);
    proof {
        assert forall|env: Env| #[trigger] r.eval(env) == bit_of(input.eval(env), n as nat) by {
            lemma_eval_range(*input, env);
            lemma_p_facts(word_size as nat);
            lemma_pow2_pos(n as nat);
            vstd::arithmetic::div_mod::lemma_div_is_ordered_by_denominator(input.eval(env) as int, 1, p(n as nat) as int);
            let v: u64 = (input.eval(env) / p(n as nat)) as u64;
            lemma_and_one(v);
        }
    }
    r
}

/// An expression for the number of ones in the `word_size` bits of `input`.
pub fn count_ones(input: &DExpr, ctx: &DContext, word_size: u32) -> (r: DExpr)
    requires
        input.wf(),
        input.width() == word_size,
        1 <= word_size <= 64,
    ensures
        r.wf(),
        r.width() == word_size,
        forall|env: Env| #[trigger] r.eval(env) == popcount(input.eval(env), word_size as nat),
        input.is_const() ==> r.is_const(),
{
    let mut count: DExpr = ctx.from_u64(0, word_size);
    let mask: DExpr = ctx.from_u64(1, word_size);
    proof {
        lemma_p_facts(word_size as nat);
        lemma_lt_pow2(word_size as nat);
        lemma_small_mod(1, p(word_size as nat));
        lemma_small_mod(0, p(word_size as nat));
    }
    let mut n: u32 = 0;
    while n < word_size
        invariant
            n <= word_size,
            1 <= word_size <= 64,
            input.wf(),
            input.width() == word_size,
            mask.wf(),
            mask.width() == word_size,
            mask.is_const(),
            forall|env: Env| #[trigger] mask.eval(env) == 1,
            count.wf(),
            count.width() == word_size,
            forall|env: Env| #[trigger] count.eval(env) == popcount(input.eval(env), n as nat),
            input.is_const() ==> count.is_const(),
        decreases word_size - n,
    {
        let to_add: DExpr = bit_expr(input, ctx, word_size, n, &mask);
        let next: DExpr = count.add(&to_add);
        proof {
            assert forall|env: Env| #[trigger] next.eval(env) == popcount(input.eval(env), (n + 1) as nat) by {
                let x: nat = input.eval(env);
                lemma_popcount_le(x, (n + 1) as nat);
                lemma_bit_of_le1(x, n as nat);
                lemma_lt_pow2(word_size as nat);
                lemma_small_mod(popcount(x, (n + 1) as nat), p(word_size as nat));
            }
        }
        count = next;
        n = n + 1;
    }
    count
}

/// An expression for the number of zeroes in the `word_size` bits of
/// `input`: the number of ones in its complement.
pub fn count_zeroes(input: &DExpr, ctx: &DContext, word_size: u32) -> (r: DExpr)
    requires
        input.wf(),
        input.width() == word_size,
        1 <= word_size <= 64,
    ensures
        r.wf(),
        r.width() == word_size,
        forall|env: Env| #[trigger] r.eval(env) == popcount(complement(input.eval(env), word_size as nat), word_size as nat),
        input.is_const() ==> r.is_const(),
{
    let inverted: DExpr = input.not();
    count_ones(&inverted, ctx, word_size)
}

/// An expression for the length of the run of ones that starts at the most
/// significant of the `word_size` bits of `input`.
pub fn count_leading_ones(input: &DExpr, ctx: &DContext, word_size: u32) -> (r: DExpr)
    requires
        input.wf(),
        input.width() == word_size,
        1 <= word_size <= 64,
    ensures
        r.wf(),
        r.width() == word_size,
        forall|env: Env| #[trigger] r.eval(env) == leading_ones(input.eval(env), word_size as nat, word_size as nat),
        input.is_const() ==> r.is_const(),
{
    let mut count: DExpr = ctx.from_u64(0, word_size);
    let mut stop_count_mask: DExpr = ctx.from_u64(1, word_size);
    let mask: DExpr = ctx.from_u64(1, word_size);
    proof {
        lemma_p_facts(word_size as nat);
        lemma_lt_pow2(word_size as nat);
        lemma_small_mod(1, p(word_size as nat));
        lemma_small_mod(0, p(word_size as nat));
    }
    let mut k: u32 = 0;
    while k < word_size
        invariant
            k <= word_size,
            1 <= word_size <= 64,
            input.wf(),
            input.width() == word_size,
            mask.wf(),
            mask.width() == word_size,
            mask.is_const(),
            forall|env: Env| #[trigger] mask.eval(env) == 1,
            count.wf(),
            count.width() == word_size,
            stop_count_mask.wf(),
            stop_count_mask.width() == word_size,
            forall|env: Env| #[trigger] count.eval(env) == leading_ones(input.eval(env), word_size as nat, k as nat),
            forall|env: Env| #[trigger] stop_count_mask.eval(env) == bit(leading_ones(input.eval(env), word_size as nat, k as nat) == k),
            input.is_const() ==> count.is_const() && stop_count_mask.is_const(),
        decreases word_size - k,
    {
        let n: u32 = word_size - 1 - k;
        let b: DExpr = bit_expr(input, ctx, word_size, n, &mask);
        let to_add: DExpr = b.and(&stop_count_mask);
        let next: DExpr = count.add(&to_add);
        proof {
            assert forall|env: Env| #[trigger] to_add.eval(env) == bit(leading_ones(input.eval(env), word_size as nat, (k + 1) as nat) == k + 1) by {
                let x: nat = input.eval(env);
                lemma_bit_of_le1(x, n as nat);
                lemma_leading_ones_le(x, word_size as nat, k as nat);
                lemma_and_bits(bit_of(x, n as nat) as u64, stop_count_mask.eval(env) as u64);
            }
            assert forall|env: Env| #[trigger] next.eval(env) == leading_ones(input.eval(env), word_size as nat, (k + 1) as nat) by {
                let x: nat = input.eval(env);
                lemma_leading_ones_le(x, word_size as nat, (k + 1) as nat);
                lemma_leading_ones_le(x, word_size as nat, k as nat);
                lemma_lt_pow2(word_size as nat);
                lemma_small_mod(leading_ones(x, word_size as nat, (k + 1) as nat), p(word_size as nat));
                assert(to_add.eval(env) == bit(leading_ones(x, word_size as nat, (k + 1) as nat) == k + 1));
            }
        }
        stop_count_mask = to_add;
        count = next;
        k = k + 1;
    }
    count
}

/// An expression for the length of the run of zeroes that starts at the most
/// significant of the `word_size` bits of `input`.
pub fn count_leading_zeroes(input: &DExpr, ctx: &DContext, word_size: u32) -> (r: DExpr)
    requires
        input.wf(),
        input.width() == word_size,
        1 <= word_size <= 64,
    ensures
        r.wf(),
        r.width() == word_size,
        forall|env: Env| #[trigger] r.eval(env) == leading_ones(complement(input.eval(env), word_size as nat), word_size as nat, word_size as nat),
        input.is_const() ==> r.is_const(),
{
    let inverted: DExpr = input.not();
    count_leading_ones(&inverted, ctx, word_size)
}

/// Converts between the arithmetic and the machine view of a bit.
proof fn lemma_bit_of_u64(v: u64, i: u64)
    requires
        i < 64,
    ensures
        bit_of(v as nat, i as nat) == ((v >> i) & 1) as nat,
{
    vstd::bits::lemma_u64_shr_is_div(v, i);
    lemma_and_one(v >> i);
}

/// Each of the low `w` bits of the complement of `x` is the opposite of the bit of `x`.
pub proof fn lemma_complement_bit(x: nat, w: nat, i: nat)
    requires
        1 <= w <= 64,
        x < p(w),
        i < w,
    ensures
        bit_of(complement(x, w), i) + bit_of(x, i) == 1,
{
    lemma_p_facts(w);
    let xx: u64 = x as u64;
    let ii: u64 = i as u64;
    let c: u64 = complement(x, w) as u64;
    lemma_bit_of_u64(xx, ii);
    lemma_bit_of_u64(c, ii);
    if w == 64 {
        assert(c == 0xffff_ffff_ffff_ffffu64 - xx);
        assert(ii < 64 ==> ((((0xffff_ffff_ffff_ffffu64 - xx) as u64) >> ii) & 1) + ((xx >> ii) & 1) == 1) by (bit_vector);
    } else {
        let ww: u64 = w as u64;
        let one: u64 = 1;
        vstd::bits::lemma_u64_pow2_no_overflow(w);
        vstd::bits::lemma_u64_shl_is_mul(one, ww);
        let m: u64 = one << ww;
        assert(c == m - 1 - xx);
        assert(ww < 64 && ii < ww && xx < (1u64 << ww) ==>
            ((((((1u64 << ww) - 1) as u64) - xx) as u64 >> ii) & 1) + ((xx >> ii) & 1) == 1) by (bit_vector);
    }
}

/// Counting the ones of the complement counts the zeroes: together the ones
/// and the zeroes of the low `n` bits of a `w` bit value number `n`.
pub proof fn lemma_popcount_complement(x: nat, w: nat, n: nat)
    requires
        1 <= w <= 64,
        x < p(w),
        n <= w,
    ensures
        popcount(complement(x, w), n) + popcount(x, n) == n,
    decreases n,
{
    if n > 0 {
        lemma_popcount_complement(x, w, (n - 1) as nat);
        lemma_complement_bit(x, w, (n - 1) as nat);
    }
}

/// For every `w` bit value, its zeroes and its ones add up to `w`: the
/// count of ones of the complement (what `count_zeroes` computes) plus the
/// count of ones (what `count_ones` computes) is the word size.
pub proof fn law_zeroes_plus_ones(x: nat, w: nat)
    requires
        1 <= w <= 64,
        x < p(w),
    ensures
        popcount(complement(x, w), w) + popcount(x, w) == w,
{
    lemma_popcount_complement(x, w, w);
}

/// The outputs of an adder.
pub struct AddWithCarryResult {
    /// One bit: whether the unsigned addition carried out.
    pub carry_out: DExpr,
    /// One bit: whether the signed addition overflowed.
    pub overflow: DExpr,
    /// The sum truncated to the word size.
    pub result: DExpr,
}

/// Whether the signed sum of the `w` bit values `x` and `y` lies outside the signed range.
pub open spec fn signed_overflow(x: nat, y: nat, w: nat) -> bool {
    let s = to_signed(x, w) + to_signed(y, w);
    s >= p((w - 1) as nat) || s < -(p((w - 1) as nat) as int)
}

/// Whether the signed sum of the `w` bit values `x` and `y` and the carry
/// `c` lies outside the signed range.
pub open spec fn signed_overflow_with_carry(x: nat, y: nat, c: nat, w: nat) -> bool {
    let s = to_signed(x, w) + to_signed(y, w) + c;
    s >= p((w - 1) as nat) || s < -(p((w - 1) as nat) as int)
}

/// The overflow of `x + y + c` is that of `x + y`, told apart from it
/// exactly when `x + y` wraps to the largest positive value and `c` is one.
proof fn lemma_overflow_with_carry(x: nat, y: nat, c: nat, w: nat)
    requires
        1 <= w <= 64,
        x < p(w),
        y < p(w),
        c <= 1,
    ensures
        signed_overflow_with_carry(x, y, c, w) == (signed_overflow(x, y, w) != (((x + y) % p(w)
            == p((w - 1) as nat) - 1) && c == 1)),
{
    lemma_p_facts(w);
    let m = p(w);
    if x + y >= m {
        let z = (x + y - m) as nat;
        lemma_small_mod(z, m);
        vstd::arithmetic::div_mod::lemma_mod_add_multiples_vanish(z as int, m as int);
        assert((x + y) % m == z);
    } else {
        lemma_small_mod(x + y, m);
    }
}

/// Adds like a hardware adder: `op1 + op2 + carry_in`, where only the lowest
/// bit of `carry_in` counts. The carry out is the carry of the full sum; the
/// overflow flag is the signed overflow of the full sum.
pub fn add_with_carry(op1: &DExpr, op2: &DExpr, carry_in: &DExpr, word_size: u32) -> (r: AddWithCarryResult)
    requires
        op1.wf(),
        op2.wf(),
        carry_in.wf(),
        op1.width() == word_size,
        op2.width() == word_size,
        1 <= word_size <= 64,
    ensures
        r.result.wf(),
        r.carry_out.wf(),
        r.overflow.wf(),
        r.result.width() == word_size,
        r.carry_out.width() == 1,
        r.overflow.width() == 1,
        forall|env: Env| #[trigger] r.result.eval(env) == (op1.eval(env) + op2.eval(env) + carry_in.eval(env) % 2) % p(word_size as nat),
        forall|env: Env| #[trigger] r.carry_out.eval(env) == bit(op1.eval(env) + op2.eval(env) + carry_in.eval(env) % 2 >= p(word_size as nat)),
        forall|env: Env| #[trigger] r.overflow.eval(env) == bit(signed_overflow_with_carry(
            op1.eval(env),
            op2.eval(env),
            carry_in.eval(env) % 2,
            word_size as nat,
        )),
        op1.is_const() && op2.is_const() && carry_in.is_const() ==> r.result.is_const() && r.carry_out.is_const() && r.overflow.is_const(),
{
    proof {
        lemma2_to64();
        lemma_p_facts(word_size as nat);
        lemma_p_facts(1);
    }
    let carry_in: DExpr = carry_in.resize_unsigned(1);
    let carry_wide: DExpr = carry_in.zero_ext(word_size);
    let c1: DExpr = op2.uaddo(&carry_wide);
    let op2c: DExpr = op2.add(&carry_wide);
    let result: DExpr = op1.add(&op2c);
    let c2: DExpr = op1.uaddo(&op2c);
    let carry: DExpr = c2.or(&c1);
    let plain_overflow: DExpr = op1.saddo(op2);
    let plain_sum: DExpr = op1.add(op2);
    let k: u64 = (word_size - 1) as u64;
    proof {
        vstd::bits::lemma_u64_pow2_no_overflow(k as nat);
        vstd::bits::lemma_u64_shl_is_mul(1, k);
        vstd::arithmetic::power2::lemma_pow2_pos(k as nat);
        lemma_p_facts(word_size as nat);
        lemma_p_facts(k as nat);
    }
    let largest: DExpr = DExpr::Const { width: word_size, value: (1u64 << k) - 1 };
    proof {
        assert(largest.wf());
        assert forall|env: Env| #[trigger] largest.eval(env) == p((word_size - 1) as nat) - 1 by {}
    }
    let at_largest: DExpr = plain_sum._eq(&largest);
    let wraps: DExpr = at_largest.and(&carry_in);
    let overflow: DExpr = plain_overflow.xor(&wraps);
    proof {
        assert forall|env: Env| #[trigger] overflow.eval(env) == bit(signed_overflow_with_carry(
            op1.eval(env),
            op2.eval(env),
            carry_in.eval(env),
            word_size as nat,
        )) by {
            lemma_eval_range(*op1, env);
            lemma_eval_range(*op2, env);
            lemma_eval_range(carry_in, env);
            lemma_overflow_with_carry(op1.eval(env), op2.eval(env), carry_in.eval(env), word_size as nat);
            let x = op1.eval(env);
            let y = op2.eval(env);
            assert(plain_overflow.eval(env) == bit(signed_overflow(x, y, word_size as nat)));
            assert(plain_sum.eval(env) == (x + y) % p(word_size as nat));
            assert(at_largest.eval(env) == bit((x + y) % p(word_size as nat) == p((word_size - 1) as nat) - 1));
            let a: u64 = plain_overflow.eval(env) as u64;
            let b: u64 = at_largest.eval(env) as u64;
            let c: u64 = carry_in.eval(env) as u64;
            assert(a <= 1 && b <= 1 && c <= 1);
            assert(a <= 1 && b <= 1 && c <= 1 ==> (b & c) <= 1 && (a ^ (b & c)) <= 1 && ((a ^ (b & c)) == 1) == ((a == 1) != (b == 1 && c == 1))) by (bit_vector);
            assert(wraps.eval(env) == (b & c) as nat);
            assert(overflow.eval(env) == (a ^ (b & c)) as nat);
        }
    }
    proof {
        assert forall|env: Env| #[trigger] result.eval(env) == (op1.eval(env) + op2.eval(env) + carry_in.eval(env)) % p(word_size as nat) by {
            vstd::arithmetic::div_mod::lemma_add_mod_noop_right(op1.eval(env) as int, (op2.eval(env) + carry_in.eval(env)) as int, p(word_size as nat) as int);
            lemma_eval_range(*op1, env);
            lemma_small_mod(op1.eval(env), p(word_size as nat));
        }
        assert forall|env: Env| #[trigger] carry.eval(env) == bit(op1.eval(env) + op2.eval(env) + carry_in.eval(env) >= p(word_size as nat)) by {
            let x: nat = op1.eval(env);
            let y: nat = op2.eval(env);
            let c: nat = carry_in.eval(env);
            lemma_eval_range(*op1, env);
            lemma_eval_range(*op2, env);
            lemma_eval_range(carry_in, env);
            lemma_or_bits(c2.eval(env) as u64, c1.eval(env) as u64);
            if y + c >= p(word_size as nat) {
                assert((y + c) % p(word_size as nat) == 0) by {
                    vstd::arithmetic::div_mod::lemma_mod_self_0(p(word_size as nat) as int);
                }
            } else {
                lemma_small_mod(y + c, p(word_size as nat));
            }
        }
    }
    AddWithCarryResult { carry_out: carry, overflow, result }
}

} // verus!
