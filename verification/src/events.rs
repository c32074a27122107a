//! Events of a re-entry that change what the sensors report.
use vstd::prelude::*;

verus! {

/// Which events are under way.
#[derive(Clone, Copy, Debug)]
pub struct ReentryEventState {
    /// Heat-shield tiles are being lost.
    pub tile_loss_active: bool,
}

impl Default for ReentryEventState {
    fn default() -> (r: ReentryEventState)
        ensures
            !r.tile_loss_active,
    {
        ReentryEventState { tile_loss_active: false }
    }
}

} // verus!
