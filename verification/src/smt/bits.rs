//! Arithmetic facts about fixed width bit-vector values.
use vstd::prelude::*;
use vstd::arithmetic::power2::{pow2, lemma_pow2_pos, lemma_pow2_adds, lemma2_to64};
use vstd::arithmetic::div_mod::{
    lemma_basic_div, lemma_mod_add_multiples_vanish, lemma_mod_multiples_basic,
    lemma_fundamental_div_mod, lemma_small_mod, lemma_mod_pos_bound,
    lemma_fundamental_div_mod_converse,
};
use vstd::arithmetic::mul::{lemma_mul_inequality, lemma_mul_is_commutative};

verus! {

/// The number of distinct values of a `w` bit vector.
pub open spec fn p(w: nat) -> nat {
    pow2(w)
}

/// Reads an unsigned `w` bit value as a two's complement signed value.
pub open spec fn to_signed(x: nat, w: nat) -> int {
    if w >= 1 && x >= p((w - 1) as nat) {
        x - p(w)
    } else {
        x as int
    }
}

/// The `w` bit two's complement representation of `v` (its value modulo `2^w`).
pub open spec fn from_signed(v: int, w: nat) -> nat {
    (v % (p(w) as int)) as nat
}

/// Absolute value.
pub open spec fn abs(v: int) -> nat {
    if v < 0 {
        (-v) as nat
    } else {
        v as nat
    }
}

/// Signed division rounding towards zero; division by zero gives -1 for a
/// non-negative dividend and 1 for a negative one.
pub open spec fn sdiv_int(a: int, b: int) -> int {
    if b == 0 {
        if a < 0 { 1 } else { -1 }
    } else {
        let q = (abs(a) / abs(b)) as int;
        if (a < 0) != (b < 0) { -q } else { q }
    }
}

/// Signed remainder; its sign follows the dividend. The remainder of a
/// division by zero is the dividend.
pub open spec fn srem_int(a: int, b: int) -> int {
    if b == 0 {
        a
    } else {
        let r = (abs(a) % abs(b)) as int;
        if a < 0 { -r } else { r }
    }
}

/// `2^w` fits in a `u128` for the widths used here.
pub proof fn lemma_p_facts(w: nat)
    requires
        w <= 64,
    ensures
        0 < p(w) <= p(64),
        p(64) == 0x1_0000_0000_0000_0000,
        w >= 1 ==> p(w) == 2 * p((w - 1) as nat),
{
    lemma2_to64();
    lemma_pow2_pos(w);
    if w < 64 {
        lemma_pow2_adds(w, (64 - w) as nat);
        lemma_pow2_pos((64 - w) as nat);
        lemma_mul_inequality(1, pow2((64 - w) as nat) as int, pow2(w) as int);
    }
    if w >= 1 {
        lemma_pow2_adds((w - 1) as nat, 1);
    }
}

/// Powers of two are monotone.
pub proof fn lemma_p_mono(a: nat, b: nat)
    requires
        a <= b,
    ensures
        p(a) <= p(b),
        p(b) == p(a) * p((b - a) as nat),
{
    lemma_pow2_adds(a, (b - a) as nat);
    lemma_pow2_pos((b - a) as nat);
    lemma_pow2_pos(a);
    lemma_mul_inequality(1, pow2((b - a) as nat) as int, pow2(a) as int);
    lemma_mul_is_commutative(pow2(a) as int, pow2((b - a) as nat) as int);
}

/// `2^w` as a machine integer.
pub fn pow2_u128(w: u32) -> (r: u128)
    requires
        w <= 64,
    ensures
        r == p(w as nat),
        r > 0,
{
    proof {
        lemma_p_facts(w as nat);
    }
    if w == 64 {
        0x1_0000_0000_0000_0000u128
    } else {
        let one: u64 = 1;
        proof {
            vstd::bits::lemma_u64_pow2_no_overflow(w as nat);
            vstd::bits::lemma_u64_shl_is_mul(one, w as u64);
        }
        let s: u64 = one << (w as u64);
        s as u128
    }
}

/// Subtracting modulo `m` through an added multiple of `m`.
pub proof fn lemma_sub_mod(x: int, y: int, m: int)
    requires
        m > 0,
    ensures
        (x + m - y) % m == (x - y) % m,
{
    lemma_mod_add_multiples_vanish(x - y, m);
}

/// A value below `d` divided by a larger power of two is zero.
pub proof fn lemma_div_small(x: nat, d: nat)
    requires
        x < d,
    ensures
        x / d == 0,
{
    lemma_basic_div(x as int, d as int);
}

/// Shifting left by at least the width leaves no bits.
pub proof fn lemma_shl_wide(x: nat, y: nat, w: nat)
    requires
        w <= y,
    ensures
        (x * p(y)) % p(w) == 0,
{
    lemma_p_mono(w, y);
    lemma_pow2_pos(w);
    assert(x * p(y) == (x * p((y - w) as nat)) * p(w)) by (nonlinear_arith)
        requires
            p(y) == p(w) * p((y - w) as nat),
    ;
    lemma_mod_multiples_basic((x * p((y - w) as nat)) as int, p(w) as int);
}

/// Floor division of a negative value `-n-1` by a positive `d`.
pub proof fn lemma_floor_div_neg(n: nat, d: nat)
    requires
        d > 0,
    ensures
        (-(n as int) - 1) / (d as int) == -((n / d) as int) - 1,
{
    let q: int = (n / d) as int;
    let r: int = (n % d) as int;
    lemma_fundamental_div_mod(n as int, d as int);
    lemma_mod_pos_bound(n as int, d as int);
    // -n-1 = d * (-q-1) + (d - 1 - r), with 0 <= d - 1 - r < d
    assert(-(n as int) - 1 == d * (-q - 1) + (d - 1 - r)) by (nonlinear_arith)
        requires
            n == d * q + r,
    ;
    lemma_fundamental_div_mod_converse(-(n as int) - 1, d as int, -q - 1, d - 1 - r);
}

/// The representation of `-q-1` in `w` bits.
pub proof fn lemma_from_signed_neg(q: nat, m: nat)
    requires
        q < m,
    ensures
        (-(q as int) - 1) % (m as int) == m - 1 - q,
{
    lemma_mod_add_multiples_vanish(-(q as int) - 1, m as int);
    lemma_small_mod((m - 1 - q) as nat, m);
}

/// The representation of `-q` in `w` bits.
pub proof fn lemma_from_signed_negate(q: nat, m: nat)
    requires
        q < m,
    ensures
        (-(q as int)) % (m as int) == if q == 0 { 0 } else { m - q },
{
    if q == 0 {
        assert((0int) % (m as int) == 0);
    } else {
        lemma_mod_add_multiples_vanish(-(q as int), m as int);
        lemma_small_mod((m - q) as nat, m);
    }
}

/// Bitwise or and exclusive or of two `w` bit values stay within `w` bits.
pub proof fn lemma_bitwise_bound(x: u64, y: u64, w: u32)
    requires
        1 <= w <= 64,
        x < p(w as nat),
        y < p(w as nat),
    ensures
        (x | y) < p(w as nat),
        (x ^ y) < p(w as nat),
        (x & y) < p(w as nat),
{
    lemma_p_facts(w as nat);
    assert(x & y <= x) by (bit_vector);
    if w < 64 {
        let one: u64 = 1;
        vstd::bits::lemma_u64_pow2_no_overflow(w as nat);
        vstd::bits::lemma_u64_shl_is_mul(one, w as u64);
        let m: u64 = one << (w as u64);
        assert(x < m && y < m && (w as u64) < 64 ==> (x | y) < m && (x ^ y) < m) by (bit_vector)
            requires
                m == 1u64 << (w as u64),
        ;
    }
}

/// A concatenation of an `a` bit value and a `b` bit value fits in `a + b` bits.
pub proof fn lemma_concat_bound(x: nat, y: nat, a: nat, b: nat)
    requires
        x < p(a),
        y < p(b),
    ensures
        x * p(b) + y < p(a + b),
{
    lemma_pow2_adds(a, b);
    assert(x * p(b) + y < p(a) * p(b)) by (nonlinear_arith)
        requires
            x < p(a),
            y < p(b),
            x >= 0,
    ;
}

} // verus!
