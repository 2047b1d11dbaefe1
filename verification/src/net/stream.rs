//! The framing of the broadcast server's audio stream and its pacing.
use vstd::prelude::*;

verus! {

/// The length of `data`, as the 4 big-endian bytes of `len as u32`, then `data`.
pub open spec fn sized_frame(data: Seq<u8>) -> Seq<u8> {
    let n = data.len() % 0x1_0000_0000;
    seq![
        (n / 0x100_0000) as u8,
        ((n / 0x1_0000) % 0x100) as u8,
        ((n / 0x100) % 0x100) as u8,
        (n % 0x100) as u8,
    ] + data
}

/// Frames `data` with its length, as it is written to a client.
pub fn frame_with_size(data: &[u8]) -> (r: Vec<u8>)
    ensures
        r@ == sized_frame(data@),
{
    let n: u64 = (data.len() as u64) % 0x1_0000_0000;
    let mut out: Vec<u8> = Vec::new();
    out.push((n / 0x100_0000) as u8);
    out.push(((n / 0x1_0000) % 0x100) as u8);
    out.push(((n / 0x100) % 0x100) as u8);
    out.push((n % 0x100) as u8);
    let mut i: usize = 0;
    while i < data.len()
        invariant
            n == data@.len() % 0x1_0000_0000,
            i <= data@.len(),
            out@ == sized_frame(data@).take(4 + i),
        decreases data@.len() - i,
    {
        out.push(data[i]);
        i = i + 1;
        assert(out@ =~= sized_frame(data@).take(4 + i));
    }
    assert(sized_frame(data@).take(4 + data@.len() as int) =~= sized_frame(data@));
    out
}

/// How far ahead of the clock the stream may run, in microseconds.
pub const MAX_LEAD_US: u128 = 1_000_000;

/// Whether the stream is more than `MAX_LEAD_US` ahead of `now` and should
/// wait before sending the next frame.
pub fn should_pace(current_frame_ts: u128, now: u128) -> (r: bool)
    requires
        now + MAX_LEAD_US <= u128::MAX,
    ensures
        r == (current_frame_ts > now + MAX_LEAD_US),
{
    current_frame_ts > now + MAX_LEAD_US
}

/// How long after a stream is set up its first frame is due, in microseconds.
pub const STREAM_LEAD_IN_US: u128 = 500_000;

/// The timing of a broadcast stream: frame `k` is stamped `start + 500000 +
/// k * frame_duration_us`, and a chunk shorter than a frame ends the stream.
pub struct FrameStream {
    /// When the stream was set up.
    pub start_ts: u128,
    /// The duration of one frame, in microseconds.
    pub frame_duration_us: u128,
    /// The stamp of the next frame.
    pub next_frame_ts: u128,
    /// The frames sent so far.
    pub frames_sent: Ghost<nat>,
}

/// The stamp of frame `k` of a stream set up at `start`.
pub open spec fn frame_stamp(start: u128, k: nat, frame_duration_us: u128) -> int {
    start + STREAM_LEAD_IN_US + k * frame_duration_us
}

impl FrameStream {
    /// Whether the next stamp is that of the next frame.
    pub open spec fn in_step(&self) -> bool {
        self.next_frame_ts == frame_stamp(self.start_ts, self.frames_sent@, self.frame_duration_us)
    }

    /// A stream set up at `now`: its first frame is due `STREAM_LEAD_IN_US` later.
    pub fn start(now: u128, frame_duration_us: u128) -> (r: Self)
        requires
            now + STREAM_LEAD_IN_US <= u128::MAX,
        ensures
            r.start_ts == now,
            r.frame_duration_us == frame_duration_us,
            r.frames_sent@ == 0,
            r.next_frame_ts == now + STREAM_LEAD_IN_US,
            r.in_step(),
    {
        FrameStream {
            start_ts: now,
            frame_duration_us,
            next_frame_ts: now + STREAM_LEAD_IN_US,
            frames_sent: Ghost(0),
        }
    }

    /// A chunk of `samples` samples per channel was read for a frame of
    /// `frame_size`. A full chunk is sent stamped with the next frame's time,
    /// and the frame after it is due one frame duration later; a shorter chunk
    /// ends the stream (`None`) and changes nothing.
    pub fn on_chunk(&mut self, samples: usize, frame_size: usize) -> (stamp: Option<u128>)
        requires
            old(self).in_step(),
            samples >= frame_size ==> old(self).next_frame_ts + old(self).frame_duration_us <= u128::MAX,
        ensures
            final(self).in_step(),
            final(self).start_ts == old(self).start_ts,
            final(self).frame_duration_us == old(self).frame_duration_us,
            samples < frame_size ==> stamp is None && *final(self) == *old(self),
            samples >= frame_size ==> {
                &&& stamp == Some(old(self).next_frame_ts)
                &&& old(self).next_frame_ts == frame_stamp(
                    old(self).start_ts,
                    old(self).frames_sent@,
                    old(self).frame_duration_us,
                )
                &&& final(self).frames_sent@ == old(self).frames_sent@ + 1
                &&& final(self).next_frame_ts == old(self).next_frame_ts + old(self).frame_duration_us
            },
    {
        if samples < frame_size {
            return None;
        }
        let stamp = self.next_frame_ts;
        let ghost k = self.frames_sent@;
        let ghost d = self.frame_duration_us;
        self.next_frame_ts = self.next_frame_ts + self.frame_duration_us;
        self.frames_sent = Ghost(k + 1);
        assert((k + 1) * d == k * d + d) by (nonlinear_arith);
        Some(stamp)
    }
}

} // verus!
