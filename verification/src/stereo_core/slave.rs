//! The decisions of a slave speaker on the frames it receives.
use vstd::prelude::*;

verus! {

/// The number of frames lost between the frame played last and frame `seq`:
/// the gap in sequence numbers, or 0 when there is none or nothing was played.
pub open spec fn lost_between(last: Option<u32>, seq: u32) -> int {
    match last {
        Some(l) => if seq > l + 1 {
            seq - l - 1
        } else {
            0
        },
        None => 0,
    }
}

/// How many frames to conceal before playing frame `seq`.
pub fn frames_lost(last: Option<u32>, seq: u32) -> (r: u32)
    requires
        last != Some(u32::MAX),
    ensures
        r == lost_between(last, seq),
{
    match last {
        Some(l) => if seq > l + 1 {
            seq - l - 1
        } else {
            0
        },
        None => 0,
    }
}

/// The slave's playback loop: the sequence number of the frame played last.
pub struct SlavePlayback {
    pub last_seq: Option<u32>,
}

impl SlavePlayback {
    /// Nothing played yet.
    pub fn new() -> (r: Self)
        ensures
            r.last_seq is None,
    {
        SlavePlayback { last_seq: None }
    }

    /// Frame `seq` is due: returns how many lost frames to conceal before it
    /// is decoded and played (the gap since the frame played last), and the
    /// frame becomes the one played last.
    pub fn on_frame(&mut self, seq: u32) -> (conceal: u32)
        requires
            old(self).last_seq != Some(u32::MAX),
        ensures
            conceal == lost_between(old(self).last_seq, seq),
            final(self).last_seq == Some(seq),
    {
        let conceal = frames_lost(self.last_seq, seq);
        self.last_seq = Some(seq);
        conceal
    }
}

} // verus!
