//! Functions that a program under analysis calls to steer its symbolic
//! execution. Run natively they do (almost) nothing; the executor recognises
//! them by name and gives them their meaning.
use vstd::prelude::*;

verus! {

/// Assumes the condition: the executor adds it as a constraint of the path.
/// Run natively, a false condition would end the program, so the condition
/// is required to hold.
pub fn assume_condition(condition: bool)
    requires
        condition,
{
    if !condition {
        suppress_path();
    }
}

/// Suppresses the current path from the analysis results. The executor
/// recognises the call by name and ends the path. Run natively it is a marker
/// that returns normally: it does not stop the program (a panic there has no
/// place in this library).
pub fn suppress_path() {
}

/// Marks the start of a cycle count measurement.
pub fn start_cyclecount() {
}

/// Marks the end of a cycle count measurement.
pub fn end_cyclecount() {
}

/// Makes `value` symbolic: the executor replaces it with an unconstrained
/// value. Run natively, the value is left as it is. It passes on to
/// [`symbolic_size`] with the size of the value's type.
pub fn symbolic<T>(value: &mut T)
    ensures
        *final(value) == *old(value),
{
    let size: usize = core::mem::size_of::<T>();
    symbolic_size(value, size);
}

/// Makes the `size` bytes of `value` symbolic: the executor recognises the
/// call by name (the pattern `^symbolic_size<.+>$`) and writes fresh bytes
/// there. Run natively, the value is left as it is.
pub fn symbolic_size<T>(value: &mut T, size: usize)
    ensures
        *final(value) == *old(value),
{
}

/// A type whose values may be checked for being valid representations.
pub trait Valid {
    /// Whether the value is a valid representation.
    spec fn valid_repr(&self) -> bool;

    /// Whether the value is a valid representation.
    fn is_valid(&self) -> (r: bool)
        ensures
            r == self.valid_repr(),
    ;
}

impl<T> Valid for &T {
    open spec fn valid_repr(&self) -> bool {
        true
    }

    fn is_valid(&self) -> (r: bool) {
        true
    }
}

/// Assumes that `value` holds a valid representation.
pub fn valid<T: Valid>(value: &T)
    requires
        value.valid_repr(),
{
    assume_condition(value.is_valid());
}

} // verus!
