//! Server discovery by UDP broadcast.
use vstd::prelude::*;

use crate::net::peer::PeerAddr;
use crate::net::protocol::ControlPacket;

verus! {

/// The UDP port that discovery beacons go to.
pub const DISCOVERY_PORT: u16 = 8888;

/// The TCP port of the server.
pub const SERVER_PORT: u16 = 8889;

/// Discovery of the server on the local network.
pub struct Discovery;

impl Discovery {
    /// The beacon the server broadcasts: its TCP port.
    pub fn beacon() -> (r: ControlPacket)
        ensures
            r matches ControlPacket::ServerHello { port } && port == SERVER_PORT,
    {
        ControlPacket::ServerHello { port: SERVER_PORT }
    }

    /// The server address that a received beacon announces: the sender's
    /// address with the announced port; `None` for a packet that is no beacon.
    pub fn server_address(packet: &ControlPacket, sender: PeerAddr) -> (r: Option<PeerAddr>)
        ensures
            packet matches ControlPacket::ServerHello { port } ==> r == Some(
                PeerAddr { ip: sender.ip, port: *port },
            ),
            !(packet is ServerHello) ==> r is None,
    {
        match packet {
            ControlPacket::ServerHello { port } => Some(sender.with_port(*port)),
            _ => None,
        }
    }
}

} // verus!
