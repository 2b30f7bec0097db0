//! Peer transport addresses.
//!
//! The relay speaks UDP over IPv4 only, so an address is a 32-bit host
//! number and a 16-bit port, kept as plain integers so that contracts can
//! speak about them directly.

use vstd::prelude::*;

verus! {

/// An IPv4 peer address: host byte-order IP and port.
#[derive(Clone, Copy, Debug, PartialEq, Eq, Structural)]
pub struct PeerAddr {
    pub ip: u32,
    pub port: u16,
}

impl PeerAddr {
    pub fn new(ip: u32, port: u16) -> (r: PeerAddr)
        ensures
            r.ip == ip && r.port == port,
    {
        PeerAddr { ip, port }
    }
}

} // verus!
