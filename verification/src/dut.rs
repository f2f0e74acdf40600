//! A small device-under-test function used to exercise the executor on enums.
use vstd::prelude::*;
use crate::symex_lib::Valid;

verus! {

/// An enum with a unit variant and variants that carry data.
#[derive(Debug, Clone, Copy, PartialEq, Eq, Structural)]
pub enum E {
    A,
    B(u8),
    C(u16),
    D(u16),
    E(u16),
    F(u16),
}

impl Valid for E {
    open spec fn valid_repr(&self) -> bool {
        true
    }

    fn is_valid(&self) -> (r: bool) {
        true
    }
}

/// The position of the variant of `e`, counting from 1.
pub fn some_function(e: &E) -> (r: u16)
    ensures
        r == match *e {
            E::A => 1u16,
            E::B(_) => 2,
            E::C(_) => 3,
            E::D(_) => 4,
            E::E(_) => 5,
            E::F(_) => 6,
        },
{
    match e {
        E::A => 1,
        E::B(_u) => 2,
        E::C(_u) => 3,
        E::D(_u) => 4,
        E::E(_u) => 5,
        E::F(_u) => 6,
    }
}

} // verus!
