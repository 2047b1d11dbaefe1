//! Socket addresses as plain values: an IPv4 or IPv6 address and a port.
use vstd::prelude::*;

verus! {

/// The IP part of a socket address.
#[derive(Debug, Clone, Copy, PartialEq, Eq, Structural)]
pub enum PeerIp {
    /// An IPv4 address, as its 32 bits in network order.
    V4(u32),
    /// An IPv6 address, as its 128 bits in network order, with its flow label
    /// and scope.
    V6 { octets: u128, flowinfo: u32, scope_id: u32 },
}

/// A socket address.
#[derive(Debug, Clone, Copy, PartialEq, Eq, Structural)]
pub struct PeerAddr {
    pub ip: PeerIp,
    pub port: u16,
}

impl PeerAddr {
    /// The same address with another port.
    pub fn with_port(self, port: u16) -> (r: PeerAddr)
        ensures
            r.ip == self.ip,
            r.port == port,
    {
        PeerAddr { ip: self.ip, port }
    }
}

} // verus!
