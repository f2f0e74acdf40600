//! Values of byte strings in either byte order.
use vstd::prelude::*;
use vstd::arithmetic::power2::{lemma_pow2_adds, lemma2_to64};
use crate::smt::bits::{p, lemma_p_facts, lemma_p_mono};

verus! {

/// The value of bytes stored least significant first.
pub open spec fn le_value(s: Seq<u8>) -> nat
    decreases s.len(),
{
    if s.len() == 0 {
        0
    } else {
        s[0] as nat + 256 * le_value(s.subrange(1, s.len() as int))
    }
}

/// The value of bytes stored most significant first.
pub open spec fn be_value(s: Seq<u8>) -> nat
    decreases s.len(),
{
    if s.len() == 0 {
        0
    } else {
        be_value(s.drop_last()) * 256 + s.last() as nat
    }
}

/// The value of bytes in the given byte order.
pub open spec fn bytes_value(s: Seq<u8>, big_endian: bool) -> nat {
    if big_endian {
        be_value(s)
    } else {
        le_value(s)
    }
}

proof fn lemma_p_step(k: nat)
    ensures
        p(8 * (k + 1)) == 256 * p(8 * k),
{
    lemma_pow2_adds(8 * k, 8);
    lemma2_to64();
    assert(8 * (k + 1) == 8 * k + 8) by (nonlinear_arith);
}

/// `n` bytes hold a value below `2^(8n)`.
pub proof fn lemma_bytes_value_bound(s: Seq<u8>, big_endian: bool)
    ensures
        bytes_value(s, big_endian) < p(8 * s.len()),
    decreases s.len(),
{
    if big_endian {
        lemma_be_bound(s);
    } else {
        lemma_le_bound(s);
    }
}

proof fn lemma_le_bound(s: Seq<u8>)
    ensures
        le_value(s) < p(8 * s.len()),
    decreases s.len(),
{
    lemma2_to64();
    if s.len() > 0 {
        let rest = s.subrange(1, s.len() as int);
        lemma_le_bound(rest);
        lemma_p_step(rest.len());
        assert(8 * s.len() == 8 * (rest.len() + 1));
    }
}

proof fn lemma_be_bound(s: Seq<u8>)
    ensures
        be_value(s) < p(8 * s.len()),
    decreases s.len(),
{
    lemma2_to64();
    if s.len() > 0 {
        let rest = s.drop_last();
        lemma_be_bound(rest);
        lemma_p_step(rest.len());
        assert(8 * s.len() == 8 * (rest.len() + 1));
    }
}

/// The value of `n` bytes of `data` from `start`, in the given byte order.
pub fn read_value(data: &[u8], start: usize, n: usize, big_endian: bool) -> (r: u64)
    requires
        1 <= n <= 8,
        start + n <= data@.len(),
    ensures
        r == bytes_value(data@.subrange(start as int, start + n), big_endian),
{
    let ghost s: Seq<u8> = data@.subrange(start as int, start + n);
    proof {
        lemma2_to64();
        lemma_p_facts(64);
    }
    let mut acc: u64 = 0;
    if big_endian {
        let mut i: usize = 0;
        while i < n
            invariant
                0 <= i <= n <= 8,
                start + n <= data@.len(),
                data@.len() == data.len(),
                p(64) == 0x1_0000_0000_0000_0000,
                s == data@.subrange(start as int, start + n),
                acc == be_value(s.subrange(0, i as int)),
                acc < p(8 * i as nat),
            decreases n - i,
        {
            proof {
                let t = s.subrange(0, i as int + 1);
                assert(t.drop_last() =~= s.subrange(0, i as int));
                assert(t.last() == data@[start + i]);
                lemma_p_step(i as nat);
                lemma_p_mono(8 * (i as nat + 1), 64);
                assert(acc * 256 + 255 < p(8 * (i as nat + 1))) by (nonlinear_arith)
                    requires
                        acc < p(8 * i as nat),
                        p(8 * (i as nat + 1)) == 256 * p(8 * i as nat),
                ;
            }
            acc = acc * 256 + data[start + i] as u64;
            i = i + 1;
        }
        assert(s.subrange(0, n as int) =~= s);
    } else {
        let mut i: usize = n;
        while i > 0
            invariant
                0 <= i <= n <= 8,
                start + n <= data@.len(),
                data@.len() == data.len(),
                p(64) == 0x1_0000_0000_0000_0000,
                s == data@.subrange(start as int, start + n),
                acc == le_value(s.subrange(i as int, n as int)),
                acc < p(8 * (n - i) as nat),
            decreases i,
        {
            proof {
                let t = s.subrange(i as int - 1, n as int);
                assert(t.subrange(1, t.len() as int) =~= s.subrange(i as int, n as int));
                assert(t[0] == data@[start + i - 1]);
                lemma_p_step((n - i) as nat);
                lemma_p_mono(8 * ((n - i) as nat + 1), 64);
                assert(acc * 256 + 255 < p(8 * ((n - i) as nat + 1))) by (nonlinear_arith)
                    requires
                        acc < p(8 * (n - i) as nat),
                        p(8 * ((n - i) as nat + 1)) == 256 * p(8 * (n - i) as nat),
                ;
                assert(8 * ((n - i) as nat + 1) == 8 * (n - (i - 1)) as nat);
            }
            acc = acc * 256 + data[start + i - 1] as u64;
            i = i - 1;
        }
        assert(s.subrange(0, n as int) =~= s);
    }
    acc
}

} // verus!
