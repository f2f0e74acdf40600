//! A memory of objects, each at its own byte address.
use std::collections::BTreeMap;
use vstd::prelude::*;
use crate::smt::expr::{DContext, DExpr};
use crate::smt::solver::DSolver;

verus! {

/// An object of memory: where it starts, its size in bits and its value.
#[derive(Debug)]
pub struct MemmoryObject {
    /// The address of its first byte.
    pub address: u64,
    /// Its size in bits.
    pub size: u64,
    /// Its value.
    pub bv: DExpr,
}

impl MemmoryObject {
    /// The size of the object in bits.
    pub fn bit_size(&self) -> (r: u64)
        ensures
            r == self.size,
    {
        self.size
    }
}

/// A memory of objects keyed by their start address.
pub struct ByteAddressableObjectMemmory {
    ctx: DContext,
    objects: BTreeMap<u64, MemmoryObject>,
    solver: DSolver,
    ptr_size: u32,
}

impl ByteAddressableObjectMemmory {
    /// The objects by start address.
    pub closed spec fn objects(self) -> Map<u64, MemmoryObject> {
        self.objects@
    }

    /// The width of addresses in bits.
    pub closed spec fn ptr_bits(self) -> u32 {
        self.ptr_size
    }

    /// A memory without objects.
    pub fn new(ctx: &DContext, ptr_size: u32, solver: DSolver) -> (r: ByteAddressableObjectMemmory)
        ensures
            r.objects() == Map::<u64, MemmoryObject>::empty(),
            r.ptr_bits() == ptr_size,
    {
        ByteAddressableObjectMemmory { ctx: *ctx, objects: BTreeMap::new(), solver, ptr_size }
    }
}

} // verus!
