//! The ARMv7E-M instruction set: decoded instructions and their translation
//! to general assembly.
pub mod operation;
pub mod decoder;
pub mod compare;

use vstd::prelude::*;
use crate::smt::bits::p;

verus! {

/// A mask of the `end - start + 1` lowest bits.
pub fn mask_dyn(start: u32, end: u32) -> (r: u32)
    requires
        start <= end,
        end - start + 1 < 32,
    ensures
        r == p((end - start + 1) as nat) - 1,
{
    let n: u32 = end - start + 1;
    proof {
        vstd::bits::lemma_u32_pow2_no_overflow(n as nat);
        vstd::bits::lemma_u32_shl_is_mul(1, n);
        vstd::arithmetic::power2::lemma_pow2_pos(n as nat);
    }
    (1u32 << n) - 1
}

} // verus!
