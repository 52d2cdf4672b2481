//! Where a peer is reached: a host and a port.

use vstd::prelude::*;

verus! {

/// An internet host, by the bits of its address.
#[derive(Debug, Clone, Copy, PartialEq, Eq, Structural)]
pub enum Host {
    V4(u32),
    V6(u128),
}

/// A host and a port.
#[derive(Debug, Clone, Copy, PartialEq, Eq, Structural)]
pub struct Address {
    pub host: Host,
    pub port: u16,
}

impl Address {
    /// Every local IPv4 interface, at `port`.
    pub fn any(port: u16) -> (address: Address)
        ensures
            address == (Address { host: Host::V4(0), port }),
    {
        Address { host: Host::V4(0), port }
    }

    /// The same host at another port.
    pub fn with_port(self, port: u16) -> (address: Address)
        ensures
            address == (Address { host: self.host, port }),
    {
        Address { host: self.host, port }
    }
}

} // verus!
