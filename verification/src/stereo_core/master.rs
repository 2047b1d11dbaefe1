//! The decisions of the master speaker: who its slaves are, how each captured
//! stereo frame is split between the local and the remote channel, and when
//! each frame is due.
use vstd::prelude::*;

use crate::net::peer::PeerAddr;
use crate::pcm::{le_i16_at, read_le_i16};
use crate::stereo_core::protocol::{identified_role, pong_for, ChannelRole, ControlPacket};

verus! {

/// The TCP port of the master's control service.
pub const SERVER_TCP_PORT: u16 = 53531;

/// How long after capture a frame is played, in microseconds.
pub const PLAYBACK_DELAY_US: u128 = 200_000;

/// The shortest wait, in microseconds, that the master sleeps for.
pub const MIN_SLEEP_US: u128 = 1000;

/// A connected slave: where its audio goes and which channel it plays.
#[derive(Debug, Clone, Copy, PartialEq, Eq, Structural)]
pub struct SlaveSession {
    pub udp_addr: PeerAddr,
    pub role: ChannelRole,
}

/// The sessions left when the slave at `addr` disconnects: every session
/// with another address, in order.
pub open spec fn without_slave(sessions: Seq<SlaveSession>, addr: PeerAddr) -> Seq<SlaveSession> {
    sessions.filter(|s: SlaveSession| s.udp_addr != addr)
}

/// Drops every session of the slave at `addr`.
pub fn remove_slave(sessions: &mut Vec<SlaveSession>, addr: PeerAddr)
    ensures
        final(sessions)@ == without_slave(old(sessions)@, addr),
{
    let ghost original = sessions@;
    let mut kept: Vec<SlaveSession> = Vec::new();
    let mut i: usize = 0;
    while i < sessions.len()
        invariant
            sessions@ == original,
            i <= original.len(),
            kept@ == without_slave(original.take(i as int), addr),
        decreases original.len() - i,
    {
        let s = sessions[i];
        proof {
            assert(original.take(i + 1) =~= original.take(i as int).push(s));
            original.take(i as int).lemma_filter_push(s, |s: SlaveSession| s.udp_addr != addr);
        }
        if s.udp_addr != addr {
            kept.push(s);
        }
        i = i + 1;
    }
    assert(original.take(original.len() as int) =~= original);
    *sessions = kept;
}

/// Where a slave's session with the master stands.
#[derive(Debug, Clone, Copy, PartialEq, Eq, Structural)]
pub enum SessionPhase {
    /// Waiting for the slave to say which channel it plays.
    AwaitIdentify,
    /// Identified; waiting for its first datagram, which gives its audio address.
    AwaitAddress(ChannelRole),
    /// Registered as this slave; answering its pings.
    Serving(SlaveSession),
    /// Over.
    Closed,
}

/// One slave's session with the master, from its handshake to its departure.
pub struct MasterSession {
    pub phase: SessionPhase,
}

impl MasterSession {
    /// A session waiting for the slave's identification.
    pub fn new() -> (r: Self)
        ensures
            r.phase == SessionPhase::AwaitIdentify,
    {
        MasterSession { phase: SessionPhase::AwaitIdentify }
    }

    /// The slave's first control packet. An identification moves the session
    /// on, and the master answers with its hello (`true`); anything else ends
    /// the session (`false`).
    pub fn on_handshake(&mut self, packet: &ControlPacket) -> (hello: bool)
        requires
            old(self).phase == SessionPhase::AwaitIdentify,
        ensures
            *packet matches ControlPacket::ClientIdentify { role } ==> hello && final(self).phase
                == SessionPhase::AwaitAddress(role),
            !(packet is ClientIdentify) ==> !hello && final(self).phase == SessionPhase::Closed,
    {
        match identified_role(packet) {
            Some(role) => {
                self.phase = SessionPhase::AwaitAddress(role);
                true
            },
            None => {
                self.phase = SessionPhase::Closed;
                false
            },
        }
    }

    /// The slave's first datagram, from `addr`: the slave is registered, at
    /// the end of the list, under that address and its channel.
    pub fn on_address(&mut self, addr: PeerAddr, slaves: &mut Vec<SlaveSession>)
        requires
            old(self).phase is AwaitAddress,
        ensures
            old(self).phase matches SessionPhase::AwaitAddress(role) ==> {
                let session = SlaveSession { udp_addr: addr, role };
                &&& final(self).phase == SessionPhase::Serving(session)
                &&& final(slaves)@ == old(slaves)@.push(session)
            },
    {
        match self.phase {
            SessionPhase::AwaitAddress(role) => {
                let session = SlaveSession { udp_addr: addr, role };
                slaves.push(session);
                self.phase = SessionPhase::Serving(session);
            },
            _ => {},
        }
    }

    /// A control packet while serving: a ping is answered with a pong that
    /// carries its time and sequence number and `server_ts`; anything else is
    /// not answered.
    pub fn on_control(&self, packet: &ControlPacket, server_ts: u128) -> (r: Option<ControlPacket>)
        ensures
            *packet matches ControlPacket::Ping { client_ts, seq } ==> (r matches Some(
                ControlPacket::Pong { client_ts: c, server_ts: s, seq: q },
            ) && c == client_ts && s == server_ts && q == seq),
            !(packet is Ping) ==> r is None,
    {
        pong_for(packet, server_ts)
    }

    /// The link closed or failed: every session under the slave's address is
    /// removed, every other kept in order, and the session is over.
    pub fn on_closed(&mut self, slaves: &mut Vec<SlaveSession>)
        requires
            old(self).phase is Serving,
        ensures
            old(self).phase matches SessionPhase::Serving(session) ==> final(slaves)@ == without_slave(
                old(slaves)@,
                session.udp_addr,
            ),
            final(self).phase == SessionPhase::Closed,
    {
        match self.phase {
            SessionPhase::Serving(session) => remove_slave(slaves, session.udp_addr),
            _ => {},
        }
        self.phase = SessionPhase::Closed;
    }
}

/// A slave's session leaves no trace: registering a slave and removing it when
/// its link closes leaves every session of another address as it was, in order.
pub proof fn lemma_session_leaves_no_trace(slaves: Seq<SlaveSession>, session: SlaveSession)
    ensures
        without_slave(slaves.push(session), session.udp_addr) == without_slave(slaves, session.udp_addr),
{
    slaves.lemma_filter_push(session, |s: SlaveSession| s.udp_addr != session.udp_addr);
}

/// The channels of the local player: stereo while no slave is connected, mono
/// (one channel of the pair) once one is.
pub fn playback_channels(has_slaves: bool) -> (r: u16)
    ensures
        r == if has_slaves {
            1u16
        } else {
            2u16
        },
{
    if has_slaves {
        1
    } else {
        2
    }
}

/// The left sample of stereo frame `i` of interleaved 16-bit little-endian PCM.
pub open spec fn left_sample(raw: Seq<u8>, i: int) -> int {
    le_i16_at(raw, 4 * i)
}

/// The right sample of stereo frame `i`.
pub open spec fn right_sample(raw: Seq<u8>, i: int) -> int {
    le_i16_at(raw, 4 * i + 2)
}

/// The sample of frame `i` on the channel of `role`.
pub open spec fn channel_sample(raw: Seq<u8>, i: int, role: ChannelRole) -> int {
    match role {
        ChannelRole::Left => left_sample(raw, i),
        ChannelRole::Right => right_sample(raw, i),
    }
}

/// Decodes `frame_size` stereo frames into interleaved left/right samples.
pub fn stereo_frame(raw: &[u8], frame_size: usize) -> (r: Vec<i16>)
    requires
        4 * frame_size <= raw@.len(),
    ensures
        r@.len() == 2 * frame_size,
        forall|i: int| 0 <= i < frame_size ==> #[trigger] r@[2 * i] == left_sample(raw@, i) && r@[2 * i
            + 1] == right_sample(raw@, i),
{
    let mut pcm: Vec<i16> = Vec::new();
    let mut i: usize = 0;
    let n = raw.len();
    while i < frame_size
        invariant
            4 * frame_size <= raw@.len(),
            n == raw@.len(),
            i <= frame_size,
            pcm@.len() == 2 * i,
            forall|j: int| 0 <= j < i ==> #[trigger] pcm@[2 * j] == left_sample(raw@, j) && pcm@[2 * j
                + 1] == right_sample(raw@, j),
        decreases frame_size - i,
    {
        let l = read_le_i16(raw, i * 4);
        let r = read_le_i16(raw, i * 4 + 2);
        let ghost before = pcm@;
        pcm.push(l);
        pcm.push(r);
        proof {
            assert forall|j: int| 0 <= j < i + 1 implies #[trigger] pcm@[2 * j] == left_sample(raw@, j)
                && pcm@[2 * j + 1] == right_sample(raw@, j) by {
                if j < i {
                    assert(pcm@[2 * j] == before[2 * j]);
                    assert(pcm@[2 * j + 1] == before[2 * j + 1]);
                } else {
                    assert(pcm@[2 * j] == l);
                    assert(pcm@[2 * j + 1] == r);
                }
            }
        }
        i = i + 1;
    }
    pcm
}

/// Splits `frame_size` stereo frames into the mono stream the master plays
/// (the channel of `master_role`) and the one it sends its slaves (the channel
/// of `slave_role`).
pub fn split_channels(raw: &[u8], frame_size: usize, master_role: ChannelRole, slave_role: ChannelRole) -> (r: (Vec<i16>, Vec<i16>))
    requires
        4 * frame_size <= raw@.len(),
    ensures
        r.0@.len() == frame_size,
        r.1@.len() == frame_size,
        forall|i: int| 0 <= i < frame_size ==> #[trigger] r.0@[i] == channel_sample(raw@, i, master_role),
        forall|i: int| 0 <= i < frame_size ==> #[trigger] r.1@[i] == channel_sample(raw@, i, slave_role),
{
    let mut local: Vec<i16> = Vec::new();
    let mut remote: Vec<i16> = Vec::new();
    let mut i: usize = 0;
    let n = raw.len();
    while i < frame_size
        invariant
            4 * frame_size <= raw@.len(),
            n == raw@.len(),
            i <= frame_size,
            local@.len() == i,
            remote@.len() == i,
            forall|j: int| 0 <= j < i ==> #[trigger] local@[j] == channel_sample(raw@, j, master_role),
            forall|j: int| 0 <= j < i ==> #[trigger] remote@[j] == channel_sample(raw@, j, slave_role),
        decreases frame_size - i,
    {
        let l = read_le_i16(raw, i * 4);
        let r = read_le_i16(raw, i * 4 + 2);
        if master_role == ChannelRole::Left {
            local.push(l);
        } else {
            local.push(r);
        }
        if slave_role == ChannelRole::Left {
            remote.push(l);
        } else {
            remote.push(r);
        }
        i = i + 1;
    }
    (local, remote)
}

/// The timing of the master's stream: the capture time and sequence number of
/// the frame that started it (a start time of 0 means no stream is running).
pub struct StreamTimeline {
    pub stream_start_ts: u128,
    pub stream_start_seq: u32,
}

/// The playback time of frame `seq`: the stream's start, plus one frame
/// duration per frame since the start, plus the delay.
pub open spec fn target_time(start_ts: u128, start_seq: u32, seq: u32, frame_duration_us: u128, delay_us: u128) -> int {
    start_ts + (seq - start_seq) * frame_duration_us + delay_us
}

impl StreamTimeline {
    /// No stream running.
    pub fn new() -> (r: Self)
        ensures
            r.stream_start_ts == 0,
            r.stream_start_seq == 0,
    {
        StreamTimeline { stream_start_ts: 0, stream_start_seq: 0 }
    }

    /// Notes frame `seq` captured at `now`: it starts the stream when none is
    /// running.
    pub fn begin_frame(&mut self, now: u128, seq: u32)
        ensures
            old(self).stream_start_ts == 0 ==> final(self).stream_start_ts == now
                && final(self).stream_start_seq == seq,
            old(self).stream_start_ts != 0 ==> *final(self) == *old(self),
    {
        if self.stream_start_ts == 0 {
            self.stream_start_ts = now;
            self.stream_start_seq = seq;
        }
    }

    /// When frame `seq` is to be played.
    pub fn target_ts(&self, seq: u32, frame_duration_us: u128, delay_us: u128) -> (r: u128)
        requires
            seq >= self.stream_start_seq,
            target_time(self.stream_start_ts, self.stream_start_seq, seq, frame_duration_us, delay_us)
                <= u128::MAX,
        ensures
            r == target_time(self.stream_start_ts, self.stream_start_seq, seq, frame_duration_us, delay_us),
    {
        let frames = (seq - self.stream_start_seq) as u128;
        assert(frames * frame_duration_us <= target_time(
            self.stream_start_ts,
            self.stream_start_seq,
            seq,
            frame_duration_us,
            delay_us,
        ));
        self.stream_start_ts + frames * frame_duration_us + delay_us
    }

    /// Ends the stream, as when the capture pipe closes; the next frame starts
    /// a new one.
    pub fn reset(&mut self)
        ensures
            final(self).stream_start_ts == 0,
            final(self).stream_start_seq == old(self).stream_start_seq,
    {
        self.stream_start_ts = 0;
    }
}

/// The state of the master's frame loop: the channel count of the open local
/// player (`None` before one is opened), the sequence number of the next frame,
/// and the stream's timeline.
pub struct MasterLoop {
    pub player_channels: Option<u16>,
    pub seq: u32,
    pub timeline: StreamTimeline,
}

impl MasterLoop {
    /// No player open, frame 0 next, no stream running.
    pub fn new() -> (r: Self)
        ensures
            r.player_channels is None,
            r.seq == 0,
            r.timeline.stream_start_ts == 0,
            r.timeline.stream_start_seq == 0,
    {
        MasterLoop { player_channels: None, seq: 0, timeline: StreamTimeline::new() }
    }

    /// Begins the next frame, captured at `now`, while slaves are connected or
    /// not. Returns the channel count of a player to open in place of the open
    /// one: the mode's count (`playback_channels`) when no player is open or
    /// the open one has another count, and `None` otherwise. The frame is noted
    /// on the timeline, where it starts the stream when none is running.
    pub fn begin_frame(&mut self, now: u128, has_slaves: bool) -> (reopen: Option<u16>)
        ensures
            final(self).player_channels == Some(if has_slaves { 1u16 } else { 2u16 }),
            reopen == if old(self).player_channels == Some(if has_slaves { 1u16 } else { 2u16 }) {
                None
            } else {
                Some(if has_slaves { 1u16 } else { 2u16 })
            },
            final(self).seq == old(self).seq,
            old(self).timeline.stream_start_ts == 0 ==> final(self).timeline.stream_start_ts == now
                && final(self).timeline.stream_start_seq == old(self).seq,
            old(self).timeline.stream_start_ts != 0 ==> final(self).timeline == old(self).timeline,
    {
        let target = playback_channels(has_slaves);
        let reopen = match self.player_channels {
            Some(c) => if c == target {
                None
            } else {
                Some(target)
            },
            None => Some(target),
        };
        self.player_channels = Some(target);
        let seq = self.seq;
        self.timeline.begin_frame(now, seq);
        reopen
    }

    /// Ends the frame: the next frame has the next sequence number.
    pub fn end_frame(&mut self)
        requires
            old(self).seq < u32::MAX,
        ensures
            final(self).seq == old(self).seq + 1,
            final(self).player_channels == old(self).player_channels,
            final(self).timeline == old(self).timeline,
    {
        self.seq = self.seq + 1;
    }
}

/// How long the master sleeps before playing a frame due at `target`: the time
/// left, when more than `MIN_SLEEP_US` is left; otherwise it does not sleep.
pub fn local_wait_us(now: u128, target: u128) -> (r: Option<u128>)
    ensures
        r == if now < target && target - now > MIN_SLEEP_US {
            Some((target - now) as u128)
        } else {
            None
        },
{
    if now < target {
        let wait = target - now;
        if wait > MIN_SLEEP_US {
            return Some(wait);
        }
    }
    None
}

/// Consecutive frames of a stream are due one frame duration apart.
pub proof fn lemma_frames_evenly_spaced(start_ts: u128, start_seq: u32, seq: u32, frame_duration_us: u128, delay_us: u128)
    requires
        start_seq <= seq < u32::MAX,
    ensures
        target_time(start_ts, start_seq, (seq + 1) as u32, frame_duration_us, delay_us) == target_time(
            start_ts,
            start_seq,
            seq,
            frame_duration_us,
            delay_us,
        ) + frame_duration_us,
{
    assert(((seq + 1) - start_seq) * frame_duration_us == (seq - start_seq) * frame_duration_us
        + frame_duration_us) by (nonlinear_arith);
}

} // verus!
