//! Mixing the PCM frames of several injected streams into one.
use vstd::prelude::*;

use crate::pcm::{clamp_i16, le_i16_at, read_le_i16, saturate_i16};

verus! {

/// The sum of sample `i` over the first `k` frames.
pub open spec fn mixed_sum(frames: Seq<Seq<u8>>, k: int, i: int) -> int
    decreases k,
{
    if k <= 0 {
        0
    } else {
        mixed_sum(frames, k - 1, i) + le_i16_at(frames[k - 1], 2 * i)
    }
}

/// The views of a list of frames.
pub open spec fn frame_views(frames: Seq<Vec<u8>>) -> Seq<Seq<u8>> {
    frames.map_values(|f: Vec<u8>| f@)
}

/// Whether every running sum of the mix fits in an `i32`, as the mixing
/// arithmetic needs.
pub open spec fn mix_in_range(frames: Seq<Seq<u8>>, total_samples: int) -> bool {
    forall|k: int, i: int|
        0 <= k <= frames.len() && 0 <= i < total_samples ==> i32::MIN <= #[trigger] mixed_sum(
            frames,
            k,
            i,
        ) <= i32::MAX
}

/// The samples and the bytes of one frame of `frame_size` samples per channel.
pub fn frame_layout(frame_size: usize, channels: usize) -> (r: (usize, usize))
    requires
        frame_size * channels * 2 <= usize::MAX,
    ensures
        r.0 == frame_size * channels,
        r.1 == frame_size * channels * 2,
{
    assert(frame_size * channels <= frame_size * channels * 2) by (nonlinear_arith);
    let total_samples = frame_size * channels;
    (total_samples, total_samples * 2)
}

/// Mixes frames of signed 16-bit little-endian samples: each output sample is
/// the sum of that sample over the frames, limited to the `i16` range.
pub fn mix_frames(frames: &Vec<Vec<u8>>, total_samples: usize) -> (r: Vec<i16>)
    requires
        2 * total_samples <= usize::MAX,
        forall|c: int| 0 <= c < frames@.len() ==> 2 * total_samples <= (#[trigger] frames@[c])@.len(),
        mix_in_range(frame_views(frames@), total_samples as int),
    ensures
        r@.len() == total_samples,
        forall|i: int|
            0 <= i < total_samples ==> #[trigger] r@[i] == clamp_i16(
                mixed_sum(frame_views(frames@), frames@.len() as int, i),
            ),
{
    let ghost fv = frame_views(frames@);
    let mut mixed: Vec<i32> = Vec::new();
    let mut i: usize = 0;
    while i < total_samples
        invariant
            i <= total_samples,
            mixed@.len() == i,
            forall|j: int| 0 <= j < i ==> #[trigger] mixed@[j] == 0,
        decreases total_samples - i,
    {
        mixed.push(0);
        i = i + 1;
    }
    let mut c: usize = 0;
    while c < frames.len()
        invariant
            fv == frame_views(frames@),
            c <= frames@.len(),
            2 * total_samples <= usize::MAX,
            forall|c2: int| 0 <= c2 < frames@.len() ==> 2 * total_samples <= (#[trigger] frames@[c2])@.len(),
            mix_in_range(fv, total_samples as int),
            mixed@.len() == total_samples,
            forall|j: int| 0 <= j < total_samples ==> #[trigger] mixed@[j] == mixed_sum(fv, c as int, j),
        decreases frames@.len() - c,
    {
        let frame = &frames[c];
        let mut i: usize = 0;
        while i < total_samples
            invariant
                fv == frame_views(frames@),
                c < frames@.len(),
                frame@ == frames@[c as int]@,
                2 * total_samples <= frame@.len(),
                2 * total_samples <= usize::MAX,
                mix_in_range(fv, total_samples as int),
                i <= total_samples,
                mixed@.len() == total_samples,
                forall|j: int| 0 <= j < i ==> #[trigger] mixed@[j] == mixed_sum(fv, c + 1, j),
                forall|j: int| i <= j < total_samples ==> #[trigger] mixed@[j] == mixed_sum(fv, c as int, j),
            decreases total_samples - i,
        {
            let sample = read_le_i16(frame.as_slice(), 2 * i);
            proof {
                assert(fv[c as int] == frame@);
                assert(mixed_sum(fv, c + 1, i as int) == mixed_sum(fv, c as int, i as int) + sample);
                assert(i32::MIN <= mixed_sum(fv, c + 1, i as int) <= i32::MAX);
            }
            let v = mixed[i] + sample as i32;
            mixed.set(i, v);
            i = i + 1;
        }
        c = c + 1;
    }
    let mut out: Vec<i16> = Vec::new();
    let mut k: usize = 0;
    while k < total_samples
        invariant
            mixed@.len() == total_samples,
            k <= total_samples,
            out@.len() == k,
            forall|j: int| 0 <= j < total_samples ==> #[trigger] mixed@[j] == mixed_sum(fv, frames@.len() as int, j),
            forall|j: int| 0 <= j < k ==> #[trigger] out@[j] == clamp_i16(mixed_sum(fv, frames@.len() as int, j)),
        decreases total_samples - k,
    {
        out.push(saturate_i16(mixed[k]));
        k = k + 1;
    }
    out
}

/// A single stream passes through the mixer unchanged.
pub proof fn lemma_single_stream_unchanged(frame: Seq<u8>, i: int)
    requires
        0 <= 2 * i && 2 * i + 1 < frame.len(),
    ensures
        clamp_i16(mixed_sum(seq![frame], 1, i)) == le_i16_at(frame, 2 * i),
{
    assert(mixed_sum(seq![frame], 0, i) == 0);
}

} // verus!
