//! Information about the target hardware supplied by the user.
use vstd::prelude::*;

verus! {

/// The cores of the ARM M-profile family that have timing models.
#[derive(Debug, Clone, Copy, PartialEq, Eq, Structural)]
pub enum ArmMCore {
    ArmM0,
    ArmM0Plus,
}

/// A family of cores.
#[derive(Debug, Clone, Copy, PartialEq, Eq, Structural)]
pub enum CoreFamily {
    ArmM(ArmMCore),
}

/// The target hardware.
#[derive(Debug, Clone, Copy, PartialEq, Eq, Structural)]
pub struct TargetConfiguration {
    core: CoreFamily,
}

impl TargetConfiguration {
    /// The configuration of a core.
    pub fn new(core: CoreFamily) -> (r: TargetConfiguration)
        ensures
            r.family() == core,
    {
        TargetConfiguration { core }
    }

    /// The core of the target.
    pub closed spec fn family(self) -> CoreFamily {
        self.core
    }
}

} // verus!
