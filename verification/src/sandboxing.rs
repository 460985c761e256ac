//! The sandbox that package managers run in.
use vstd::prelude::*;
use crate::text::concat2;

verus! {

/// A sandbox, with or without network access.
pub struct Sandbox {
    network_access: bool,
}

impl Sandbox {
    /// Whether the sandbox lets commands reach the network.
    pub closed spec fn network(&self) -> bool {
        self.network_access
    }

    /// A sandbox with network access.
    pub fn new() -> (r: Result<Self, String>)
        ensures
            r matches Ok(s) && s.network(),
    {
        Ok(Sandbox { network_access: true })
    }

    /// Allows or denies network access.
    pub fn set_network_access(&mut self, enabled: bool)
        ensures
            final(self).network() == enabled,
    {
        self.network_access = enabled;
    }

    /// Whether commands may reach the network.
    pub fn network_access(&self) -> (r: bool)
        ensures
            r == self.network(),
    {
        self.network_access
    }

    /// The complaint when a command run in the sandbox fails.
    pub fn failure_message(stderr: &str) -> (r: String)
        ensures
            r@ == "Command failed: "@ + stderr@,
    {
        concat2("Command failed: ", stderr)
    }
}

} // verus!
