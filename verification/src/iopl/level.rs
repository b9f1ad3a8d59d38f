//! Privilege levels.

use vstd::prelude::*;

verus! {

/// A privilege level of the processor; code at level 3 has the least.
#[derive(Clone, Copy, Debug, PartialEq, Eq, Structural)]
pub enum Level {
    Ring0,
    Ring1,
    Ring2,
    Ring3,
}

impl Level {
    /// The number of the level.
    pub open spec fn spec_value(self) -> u32 {
        match self {
            Level::Ring0 => 0,
            Level::Ring1 => 1,
            Level::Ring2 => 2,
            Level::Ring3 => 3,
        }
    }

    pub fn value(self) -> (r: u32)
        ensures
            r == self.spec_value(),
    {
        match self {
            Level::Ring0 => 0,
            Level::Ring1 => 1,
            Level::Ring2 => 2,
            Level::Ring3 => 3,
        }
    }
}

} // verus!
