//! Messages of the broadcast stereo server and its clients.
use vstd::prelude::*;

verus! {

/// Which channel a client plays.
#[derive(Debug, Clone, Copy, PartialEq, Eq, Structural, Hash)]
pub enum ChannelRole {
    Left,
    Right,
}

/// Messages on the control connection and the discovery broadcast.
#[derive(Debug, Clone)]
pub enum ControlPacket {
    /// Discovery: the server's TCP port.
    ServerHello { port: u16 },
    /// Handshake: the channel the client plays.
    ClientIdentify { role: ChannelRole },
    /// Time synchronisation request.
    Ping { client_ts: u128 },
    /// Time synchronisation reply.
    Pong { client_ts: u128, server_ts: u128 },
    /// Streaming starts at this server time.
    StartStreaming { start_time: u128 },
}

/// One encoded audio frame.
#[derive(Debug, Clone)]
pub struct AudioPacket {
    /// Target playback time, in server time.
    pub timestamp: u128,
    /// Opus-encoded data.
    pub data: Vec<u8>,
}

/// The server's reply to a ping: `Pong` with the ping's client time and the
/// server time `server_ts`; `None` for any other packet.
pub fn pong_for(packet: &ControlPacket, server_ts: u128) -> (r: Option<ControlPacket>)
    ensures
        packet matches ControlPacket::Ping { client_ts } ==> (r matches Some(
            ControlPacket::Pong { client_ts: c, server_ts: s },
        ) && c == client_ts && s == server_ts),
        !(packet is Ping) ==> r is None,
{
    match packet {
        ControlPacket::Ping { client_ts } => Some(
            ControlPacket::Pong { client_ts: *client_ts, server_ts },
        ),
        _ => None,
    }
}

/// The role a client identified with, or `None` for any other packet.
pub fn identified_role(packet: &ControlPacket) -> (r: Option<ChannelRole>)
    ensures
        *packet matches ControlPacket::ClientIdentify { role } ==> r == Some(role),
        !(packet is ClientIdentify) ==> r is None,
{
    match packet {
        ControlPacket::ClientIdentify { role } => Some(*role),
        _ => None,
    }
}

} // verus!
