//! Settings of a multicast connection.

use crate::ipv4;
use vstd::prelude::*;

verus! {

/// Settings of a multicast connection (IPv4).
#[derive(Debug, Clone, Copy, PartialEq, Eq)]
pub struct MulticastConfig {
    /// Multicast group, such as 239.69.83.67.
    pub group: [u8; 4],
    /// UDP port (AES67 media: mostly 5004).
    pub port: u16,
    /// Local interface to join and send on; 0.0.0.0 lets the system choose.
    pub interface: [u8; 4],
    /// Multicast TTL of what is sent.
    pub ttl: u32,
}

impl MulticastConfig {
    /// Any interface, and a TTL of 32 (site scope).
    pub fn new(group: [u8; 4], port: u16) -> (c: Self)
        ensures
            c.group == group,
            c.port == port,
            c.interface@ == seq![0u8, 0u8, 0u8, 0u8],
            c.ttl == 32,
    {
        let c = MulticastConfig { group, port, interface: [0, 0, 0, 0], ttl: 32 };
        assert(c.interface@ =~= seq![0u8, 0u8, 0u8, 0u8]);
        c
    }

    /// Sets the local interface.
    pub fn with_interface(self, iface: [u8; 4]) -> (c: Self)
        ensures
            c == (MulticastConfig { interface: iface, ..self }),
    {
        MulticastConfig { interface: iface, ..self }
    }

    /// Sets the multicast TTL.
    pub fn with_ttl(self, ttl: u32) -> (c: Self)
        ensures
            c == (MulticastConfig { ttl, ..self }),
    {
        MulticastConfig { ttl, ..self }
    }

    /// Destination (group and port) of what is sent.
    pub fn dest(&self) -> (d: ([u8; 4], u16))
        ensures
            d == (self.group, self.port),
    {
        (self.group, self.port)
    }

    /// The interface that a sender has to be tied to; `None` where the system
    /// chooses.
    pub fn egress(&self) -> (r: Option<[u8; 4]>)
        ensures
            r == (if self.interface@ == seq![0u8, 0u8, 0u8, 0u8] {
                None
            } else {
                Some(self.interface)
            }),
    {
        if ipv4::is_unspecified(self.interface) {
            None
        } else {
            Some(self.interface)
        }
    }
}

} // verus!
