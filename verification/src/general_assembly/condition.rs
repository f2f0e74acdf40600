//! Condition codes of the general assembly language.
use vstd::prelude::*;

verus! {

/// The condition codes, each a predicate over the N, Z, C and V flags.
#[derive(Debug, PartialEq, Eq, Structural, Clone, Copy)]
pub enum Condition {
    /// Equal: Z = 1
    EQ,
    /// Not equal: Z = 0
    NE,
    /// Carry set: C = 1
    CS,
    /// Carry clear: C = 0
    CC,
    /// Negative: N = 1
    MI,
    /// Positive or zero: N = 0
    PL,
    /// Overflow: V = 1
    VS,
    /// No overflow: V = 0
    VC,
    /// Unsigned higher: C = 1 and Z = 0
    HI,
    /// Unsigned lower or same: C = 0 or Z = 1
    LS,
    /// Signed greater or equal: N = V
    GE,
    /// Signed less than: N != V
    LT,
    /// Signed greater than: Z = 0 and N = V
    GT,
    /// Signed less or equal: Z = 1 or N != V
    LE,
    /// Always true (no condition)
    AL,
}

/// Whether the condition holds for the given flag values.
pub open spec fn condition_holds(c: Condition, n: bool, z: bool, carry: bool, v: bool) -> bool {
    match c {
        Condition::EQ => z,
        Condition::NE => !z,
        Condition::CS => carry,
        Condition::CC => !carry,
        Condition::MI => n,
        Condition::PL => !n,
        Condition::VS => v,
        Condition::VC => !v,
        Condition::HI => carry && !z,
        Condition::LS => !carry || z,
        Condition::GE => n == v,
        Condition::LT => n != v,
        Condition::GT => !z && n == v,
        Condition::LE => z || n != v,
        Condition::AL => true,
    }
}

/// The condition codes come in complementary pairs: `EQ`/`NE`, `CS`/`CC`,
/// `MI`/`PL`, `VS`/`VC`, `HI`/`LS`, `GE`/`LT` and `GT`/`LE`; for any flags,
/// exactly one condition of each pair holds.
pub proof fn law_complementary_conditions(n: bool, z: bool, carry: bool, v: bool)
    ensures
        condition_holds(Condition::EQ, n, z, carry, v) != condition_holds(Condition::NE, n, z, carry, v),
        condition_holds(Condition::CS, n, z, carry, v) != condition_holds(Condition::CC, n, z, carry, v),
        condition_holds(Condition::MI, n, z, carry, v) != condition_holds(Condition::PL, n, z, carry, v),
        condition_holds(Condition::VS, n, z, carry, v) != condition_holds(Condition::VC, n, z, carry, v),
        condition_holds(Condition::HI, n, z, carry, v) != condition_holds(Condition::LS, n, z, carry, v),
        condition_holds(Condition::GE, n, z, carry, v) != condition_holds(Condition::LT, n, z, carry, v),
        condition_holds(Condition::GT, n, z, carry, v) != condition_holds(Condition::LE, n, z, carry, v),
        condition_holds(Condition::AL, n, z, carry, v),
{
}

} // verus!
