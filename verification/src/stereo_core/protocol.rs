//! Messages between the master and the slaves of a stereo pair.
use vstd::prelude::*;

verus! {

/// Which channel of the stereo pair a speaker plays.
#[derive(Debug, Clone, Copy, PartialEq, Eq, Structural)]
pub enum ChannelRole {
    Left,
    Right,
}

/// Messages on the control connection.
#[derive(Debug, Clone)]
pub enum ControlPacket {
    /// Discovery: the UDP port of the audio stream.
    ServerHello { udp_port: u16 },
    /// Handshake: the channel that the slave plays.
    ClientIdentify { role: ChannelRole },
    /// Time synchronisation request, sent continuously.
    Ping { client_ts: u128, seq: u32 },
    /// Time synchronisation reply.
    Pong { client_ts: u128, server_ts: u128, seq: u32 },
    /// Volume, 0 to 100.
    Volume(u8),
}

/// One encoded audio frame.
#[derive(Debug, Clone)]
pub struct AudioPacket {
    /// Sequence number, for loss detection.
    pub seq: u32,
    /// Target playback time, in master time (microseconds).
    pub timestamp: u128,
    /// Opus-encoded data.
    pub data: Vec<u8>,
}

/// An audio packet as a mathematical value.
pub struct PacketView {
    pub seq: u32,
    pub timestamp: u128,
    pub data: Seq<u8>,
}

impl View for AudioPacket {
    type V = PacketView;

    open spec fn view(&self) -> PacketView {
        PacketView { seq: self.seq, timestamp: self.timestamp, data: self.data@ }
    }
}

/// The master's reply to a ping: `Pong` carrying the ping's client time and
/// sequence number and the master time `server_ts`; `None` for any other packet.
pub fn pong_for(packet: &ControlPacket, server_ts: u128) -> (r: Option<ControlPacket>)
    ensures
        *packet matches ControlPacket::Ping { client_ts, seq } ==> (r matches Some(
            ControlPacket::Pong { client_ts: c, server_ts: s, seq: q },
        ) && c == client_ts && s == server_ts && q == seq),
        !(packet is Ping) ==> r is None,
{
    match packet {
        ControlPacket::Ping { client_ts, seq } => Some(
            ControlPacket::Pong { client_ts: *client_ts, server_ts, seq: *seq },
        ),
        _ => None,
    }
}

/// The role a slave identified with in its handshake, or `None` for any
/// other packet, which the master refuses.
pub fn identified_role(packet: &ControlPacket) -> (r: Option<ChannelRole>)
    ensures
        *packet matches ControlPacket::ClientIdentify { role } ==> r == Some(role),
        !(packet is ClientIdentify) ==> r is None,
{
    match packet {
        ControlPacket::ClientIdentify { role } => Some(*role),
        _ => None,
    }
}

/// The port announced by a `ServerHello`, or `None` for any other packet.
pub fn announced_port(packet: &ControlPacket) -> (r: Option<u16>)
    ensures
        *packet matches ControlPacket::ServerHello { udp_port } ==> r == Some(udp_port),
        !(packet is ServerHello) ==> r is None,
{
    match packet {
        ControlPacket::ServerHello { udp_port } => Some(*udp_port),
        _ => None,
    }
}

} // verus!
