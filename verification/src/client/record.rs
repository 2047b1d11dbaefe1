//! The byte-level work of recording: the capture settings used on the A113
//! microphone, the conversion of its 32-bit samples to 16-bit, and the cutting
//! of the captured stream into chunks.
use vstd::prelude::*;

use crate::client::audio_config::AudioConfig;
use crate::pcm::{clamp_i16, u16_pattern};
use vstd::slice::{slice_subrange, slice_to_vec};

verus! {

/// The sample width the A113 microphone captures at when 16-bit is asked for.
pub const A113_CAPTURE_BITS_PER_SAMPLE: u16 = 32;

/// The capture settings for a request: those asked for, but 32 bits per sample
/// where 16 were asked for.
pub fn capture_config_for_recording(requested: &AudioConfig) -> (r: AudioConfig)
    ensures
        r.pcm@ == requested.pcm@,
        r.channels == requested.channels,
        r.sample_rate == requested.sample_rate,
        r.period_size == requested.period_size,
        r.buffer_size == requested.buffer_size,
        r.bits_per_sample == if requested.bits_per_sample == 16 {
            A113_CAPTURE_BITS_PER_SAMPLE
        } else {
            requested.bits_per_sample
        },
{
    AudioConfig {
        pcm: requested.pcm.clone(),
        channels: requested.channels,
        bits_per_sample: if requested.bits_per_sample == 16 {
            A113_CAPTURE_BITS_PER_SAMPLE
        } else {
            requested.bits_per_sample
        },
        sample_rate: requested.sample_rate,
        period_size: requested.period_size,
        buffer_size: requested.buffer_size,
    }
}

/// The signed 32-bit little-endian value of frame `f` of `b`.
pub open spec fn le_i32_at(b: Seq<u8>, f: int) -> int {
    let b0 = b[4 * f] as int;
    let b1 = b[4 * f + 1] as int;
    let b2 = b[4 * f + 2] as int;
    let b3 = b[4 * f + 3] as int;
    b0 + 0x100 * b1 + 0x1_0000 * b2 + 0x100_0000 * b3 - if b3 >= 0x80 {
        0x1_0000_0000int
    } else {
        0
    }
}

/// The 16-bit sample of frame `f`: the 32-bit sample shifted right by 8 (its
/// data lives in the lower 24 bits), limited to the `i16` range.
pub open spec fn a113_sample(b: Seq<u8>, f: int) -> int {
    clamp_i16(le_i32_at(b, f) / 256)
}

/// Byte `k` of the little-endian encoding of the 16-bit samples.
pub open spec fn converted_byte(b: Seq<u8>, k: int) -> u8 {
    let p = u16_pattern(a113_sample(b, k / 2));
    if k % 2 == 0 {
        (p % 256) as u8
    } else {
        (p / 256) as u8
    }
}

/// The 16-bit little-endian stream of a 32-bit little-endian A113 stream; empty
/// when the length is not a whole number of 4-byte frames.
pub open spec fn converted(b: Seq<u8>) -> Seq<u8> {
    if b.len() % 4 != 0 {
        Seq::<u8>::empty()
    } else {
        Seq::new((b.len() / 4 * 2) as nat, |k: int| converted_byte(b, k))
    }
}

/// Converts a captured A113 chunk (signed 32-bit little-endian) to signed
/// 16-bit little-endian.
pub fn convert_a113_s32_to_s16(chunk: &[u8]) -> (r: Vec<u8>)
    ensures
        r@ == converted(chunk@),
{
    if chunk.len() % 4 != 0 {
        return Vec::new();
    }
    let frame_count = chunk.len() / 4;
    let mut out: Vec<u8> = Vec::new();
    let mut frame: usize = 0;
    while frame < frame_count
        invariant
            frame_count == chunk@.len() / 4,
            chunk@.len() % 4 == 0,
            chunk@.len() <= usize::MAX,
            frame <= frame_count,
            out@.len() == 2 * frame,
            forall|k: int| 0 <= k < 2 * frame ==> out@[k] == converted_byte(chunk@, k),
        decreases frame_count - frame,
    {
        let base = frame * 4;
        let b0 = chunk[base] as i32;
        let b1 = chunk[base + 1] as i32;
        let b2 = chunk[base + 2] as i32;
        let b3 = chunk[base + 3] as i32;
        let upper = b1 + 0x100 * b2 + 0x1_0000 * b3;
        let shifted = if b3 >= 0x80 {
            upper - 0x100_0000
        } else {
            upper
        };
        proof {
            let v = le_i32_at(chunk@, frame as int);
            assert(v == shifted * 256 + b0);
            vstd::arithmetic::div_mod::lemma_fundamental_div_mod_converse(
                v,
                256,
                shifted as int,
                b0 as int,
            );
        }
        let mapped = if shifted > 32767 {
            32767
        } else if shifted < -32768 {
            -32768
        } else {
            shifted
        };
        let pattern = if mapped < 0 {
            mapped + 0x1_0000
        } else {
            mapped
        };
        let lo = (pattern % 256) as u8;
        let hi = (pattern / 256) as u8;
        let ghost before = out@;
        out.push(lo);
        out.push(hi);
        proof {
            assert forall|k: int| 0 <= k < 2 * (frame + 1) implies out@[k] == converted_byte(
                chunk@,
                k,
            ) by {
                if k >= 2 * frame {
                    assert(k / 2 == frame);
                }
            }
        }
        frame = frame + 1;
    }
    assert(out@ =~= converted(chunk@));
    out
}

/// A captured chunk as it is sent on: converted from the A113's 32-bit capture
/// to 16-bit when 16-bit was asked for and 32-bit captured, unchanged otherwise.
pub fn transform_stream_chunk(chunk: Vec<u8>, requested: &AudioConfig, capture: &AudioConfig) -> (r: Vec<u8>)
    ensures
        r@ == if requested.bits_per_sample != 16 || capture.bits_per_sample
            != A113_CAPTURE_BITS_PER_SAMPLE {
            chunk@
        } else {
            converted(chunk@)
        },
{
    if requested.bits_per_sample != 16 || capture.bits_per_sample != A113_CAPTURE_BITS_PER_SAMPLE {
        return chunk;
    }
    convert_a113_s32_to_s16(chunk.as_slice())
}

/// Bytes per frame of a capture: the sample width in bytes (at least one byte)
/// times the channels (at least one).
pub open spec fn frame_bytes(c: &AudioConfig) -> int {
    let bits = if c.bits_per_sample < 8 { 8 } else { c.bits_per_sample as int };
    let channels = if c.channels < 1 { 1 } else { c.channels as int };
    (bits / 8) * channels
}

/// Bytes per chunk sent on: a buffer of frames (at least one frame).
pub open spec fn chunk_bytes(c: &AudioConfig) -> int {
    let frames = if c.buffer_size < 1 { 1 } else { c.buffer_size as int };
    frames * frame_bytes(c)
}

/// Bytes per read from the capture: a period of frames (at least one frame).
pub open spec fn read_bytes(c: &AudioConfig) -> int {
    let frames = if c.period_size < 1 { 1 } else { c.period_size as int };
    frames * frame_bytes(c)
}

/// The chunk size and the read size, in bytes, of a capture.
pub fn stream_chunk_sizes(capture: &AudioConfig) -> (r: (usize, usize))
    requires
        chunk_bytes(capture) <= usize::MAX,
        read_bytes(capture) <= usize::MAX,
    ensures
        r.0 == chunk_bytes(capture),
        r.1 == read_bytes(capture),
        r.0 >= 1,
        r.1 >= 1,
{
    let bits = if capture.bits_per_sample < 8 { 8 } else { capture.bits_per_sample };
    let channels = if capture.channels < 1 { 1 } else { capture.channels };
    let bytes_per_sample = (bits / 8) as usize;
    assert(bytes_per_sample * channels <= 8191 * 65535) by (nonlinear_arith)
        requires
            bytes_per_sample <= 8191,
            channels <= 65535,
    ;
    let bytes_per_frame = bytes_per_sample * channels as usize;
    let target_frames = if capture.buffer_size < 1 { 1 } else { capture.buffer_size } as usize;
    let read_frames = if capture.period_size < 1 { 1 } else { capture.period_size } as usize;
    proof {
        assert(bytes_per_frame >= 1) by (nonlinear_arith)
            requires
                bytes_per_frame == bytes_per_sample * channels,
                bytes_per_sample >= 1,
                channels >= 1,
        ;
        assert(target_frames * bytes_per_frame >= 1) by (nonlinear_arith)
            requires
                bytes_per_frame >= 1,
                target_frames >= 1,
        ;
        assert(read_frames * bytes_per_frame >= 1) by (nonlinear_arith)
            requires
                bytes_per_frame >= 1,
                read_frames >= 1,
        ;
    }
    (target_frames * bytes_per_frame, read_frames * bytes_per_frame)
}

/// The bytes of a sequence of chunks, one after another.
pub open spec fn joined(chunks: Seq<Vec<u8>>) -> Seq<u8> {
    chunks.map_values(|c: Vec<u8>| c@).flatten()
}

/// Collects captured bytes and hands them on in chunks of a fixed size.
pub struct StreamAccumulator {
    pending: Vec<u8>,
    target_size: usize,
}

impl StreamAccumulator {
    /// The bytes received and not yet handed on.
    pub closed spec fn pending(&self) -> Seq<u8> {
        self.pending@
    }

    /// The size of the chunks handed on.
    pub closed spec fn chunk_size(&self) -> nat {
        self.target_size as nat
    }

    /// Fewer bytes wait than make a chunk.
    pub closed spec fn wf(&self) -> bool {
        self.target_size > 0 && self.pending@.len() < self.target_size
    }

    /// An accumulator for chunks of `target_size` bytes, with nothing waiting.
    pub fn new(target_size: usize) -> (r: Self)
        requires
            target_size > 0,
        ensures
            r.wf(),
            r.chunk_size() == target_size,
            r.pending() == Seq::<u8>::empty(),
    {
        StreamAccumulator { pending: Vec::new(), target_size }
    }

    /// Takes newly read bytes and hands on every full chunk now available, in
    /// order; the rest waits. No byte is lost, repeated or reordered.
    pub fn feed(&mut self, bytes: &[u8]) -> (chunks: Vec<Vec<u8>>)
        requires
            old(self).wf(),
        ensures
            final(self).wf(),
            final(self).chunk_size() == old(self).chunk_size(),
            forall|i: int| 0 <= i < chunks@.len() ==> #[trigger] chunks@[i]@.len() == old(self).chunk_size(),
            joined(chunks@) + final(self).pending() == old(self).pending() + bytes@,
            final(self).pending().len() < final(self).chunk_size(),
    {
        let mut all: Vec<u8> = Vec::new();
        all.append(&mut self.pending);
        let mut extra = slice_to_vec(bytes);
        all.append(&mut extra);
        let ghost total = all@;
        let target = self.target_size;
        let mut chunks: Vec<Vec<u8>> = Vec::new();
        let mut start: usize = 0;
        assert(joined(chunks@) =~= Seq::<u8>::empty());
        while all.len() - start >= target
            invariant
                all@ == total,
                target == self.target_size,
                target > 0,
                start <= all@.len(),
                joined(chunks@) == total.take(start as int),
                forall|i: int| 0 <= i < chunks@.len() ==> #[trigger] chunks@[i]@.len() == target,
            decreases all@.len() - start,
        {
            let piece = slice_to_vec(slice_subrange(all.as_slice(), start, start + target));
            let ghost before = chunks@;
            chunks.push(piece);
            proof {
                assert(chunks@.map_values(|c: Vec<u8>| c@) =~= before.map_values(|c: Vec<u8>| c@).push(
                    piece@,
                ));
                before.map_values(|c: Vec<u8>| c@).lemma_flatten_push(piece@);
                assert(total.take(start + target) =~= total.take(start as int) + piece@);
            }
            start = start + target;
        }
        self.pending = slice_to_vec(slice_subrange(all.as_slice(), start, all.len()));
        assert(total.take(start as int) + self.pending@ =~= total);
        chunks
    }
}

/// Whether the recorder is capturing.
#[derive(Debug, Clone, Copy, PartialEq, Eq, Structural)]
pub enum RecorderState {
    Idle,
    Recording,
}

/// The recorder's state machine: a start while recording does nothing; a stop,
/// or the end of the capture stream, tears the capture down and leaves the
/// recorder idle.
pub struct RecorderControl {
    pub state: RecorderState,
}

impl RecorderControl {
    /// An idle recorder.
    pub fn new() -> (r: Self)
        ensures
            r.state == RecorderState::Idle,
    {
        RecorderControl { state: RecorderState::Idle }
    }

    /// A start request: whether a capture is to be spawned, which is so only
    /// when the recorder is idle. The state is unchanged until the capture has
    /// been spawned.
    pub fn should_start(&self) -> (r: bool)
        ensures
            r == (self.state == RecorderState::Idle),
    {
        match self.state {
            RecorderState::Idle => true,
            RecorderState::Recording => false,
        }
    }

    /// The capture was spawned: the recorder is recording.
    pub fn on_started(&mut self)
        ensures
            final(self).state == RecorderState::Recording,
    {
        self.state = RecorderState::Recording;
    }

    /// A stop request, or the end of the capture stream: whether there is a
    /// capture to tear down, which is so only while recording. The recorder is
    /// idle afterwards.
    pub fn on_stop(&mut self) -> (teardown: bool)
        ensures
            teardown == (old(self).state == RecorderState::Recording),
            final(self).state == RecorderState::Idle,
    {
        let teardown = match self.state {
            RecorderState::Idle => false,
            RecorderState::Recording => true,
        };
        self.state = RecorderState::Idle;
        teardown
    }
}

} // verus!
