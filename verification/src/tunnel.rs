//! The handler that passes a connection on to a fixed target, byte for byte.

use vstd::prelude::*;

verus! {

/// Hands every connection to the same target address.
#[derive(Debug)]
pub struct TunnelHandler {
    target: String,
}

impl TunnelHandler {
    /// A tunnel to `target`, an address of the form `host:port`.
    pub fn new(target: String) -> (h: TunnelHandler)
        ensures
            h.target()@ == target@,
    {
        Self { target }
    }

    /// The address that connections are passed on to.
    pub closed spec fn target(&self) -> String {
        self.target
    }

    /// The address that connections are passed on to.
    pub fn address(&self) -> (t: &String)
        ensures
            t@ == self.target()@,
    {
        &self.target
    }
}

} // verus!
