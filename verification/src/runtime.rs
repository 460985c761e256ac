//! The runtime that asynchronous work runs on.
use vstd::prelude::*;

verus! {

/// The runtime manager.
pub struct RuntimeManager;

impl RuntimeManager {
    /// A manager.
    pub fn new() -> (r: Self) {
        RuntimeManager
    }

    /// The system is always reported healthy.
    pub fn check_system_health(&self) -> (r: Result<(), String>)
        ensures
            r is Ok,
    {
        Ok(())
    }
}

} // verus!
