//! State of the kinematic observer: position, drift and slew.
use vstd::prelude::*;
use crate::binary64::Binary64;
use crate::binary64::number;
use crate::binary64::ZERO_BITS;

verus! {

/// Position `phi`, drift rate `omega` and slew `alpha`.
#[derive(Clone, Copy, Debug, PartialEq)]
pub struct DsfbState {
    /// Position or phase.
    pub phi: Binary64,
    /// Drift: velocity or frequency.
    pub omega: Binary64,
    /// Slew: acceleration.
    pub alpha: Binary64,
}

impl DsfbState {
    pub fn new(phi: Binary64, omega: Binary64, alpha: Binary64) -> (r: DsfbState)
        ensures
            r == (DsfbState { phi, omega, alpha }),
    {
        DsfbState { phi, omega, alpha }
    }

    /// The state at rest in the origin.
    pub open spec fn origin() -> DsfbState {
        DsfbState { phi: number(ZERO_BITS), omega: number(ZERO_BITS), alpha: number(ZERO_BITS) }
    }

    /// The state with all three components at zero.
    pub fn zero() -> (r: DsfbState)
        ensures
            r == Self::origin(),
    {
        DsfbState { phi: Binary64::zero(), omega: Binary64::zero(), alpha: Binary64::zero() }
    }
}

impl Default for DsfbState {
    fn default() -> (r: DsfbState)
        ensures
            r == DsfbState::origin(),
    {
        DsfbState::zero()
    }
}

} // verus!
