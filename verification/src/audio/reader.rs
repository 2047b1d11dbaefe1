//! Turning decoded interleaved samples into left and right streams, and
//! handing them out in chunks.
use vstd::prelude::*;
use vstd::slice::{slice_subrange, slice_to_vec};

verus! {

/// Splits decoded interleaved samples into a left and a right stream: even and
/// odd samples of a stereo stream; for any other channel count, every sample
/// on both sides.
pub fn split_stereo_samples(samples: &[i16], channels: usize) -> (r: (Vec<i16>, Vec<i16>))
    requires
        channels > 0,
        channels == 2 ==> samples@.len() % 2 == 0,
    ensures
        channels == 2 ==> {
            &&& r.0@.len() == samples@.len() / 2
            &&& r.1@.len() == samples@.len() / 2
            &&& forall|i: int| 0 <= i < samples@.len() / 2 ==> #[trigger] r.0@[i] == samples@[2 * i]
            &&& forall|i: int| 0 <= i < samples@.len() / 2 ==> #[trigger] r.1@[i] == samples@[2 * i + 1]
        },
        channels != 2 ==> r.0@ == samples@ && r.1@ == samples@,
{
    if channels == 2 {
        let n = samples.len();
        let mut left: Vec<i16> = Vec::new();
        let mut right: Vec<i16> = Vec::new();
        let mut i: usize = 0;
        while i < n
            invariant
                n == samples@.len(),
                n % 2 == 0,
                i % 2 == 0,
                i <= n,
                left@.len() == i / 2,
                right@.len() == i / 2,
                forall|k: int| 0 <= k < i / 2 ==> #[trigger] left@[k] == samples@[2 * k],
                forall|k: int| 0 <= k < i / 2 ==> #[trigger] right@[k] == samples@[2 * k + 1],
            decreases n - i,
        {
            left.push(samples[i]);
            right.push(samples[i + 1]);
            i = i + 2;
        }
        (left, right)
    } else {
        (slice_to_vec(samples), slice_to_vec(samples))
    }
}

/// Decoded left and right samples waiting to be handed out, equally many.
pub struct SampleQueue {
    left: Vec<i16>,
    right: Vec<i16>,
}

impl SampleQueue {
    /// The left samples waiting.
    pub closed spec fn left(&self) -> Seq<i16> {
        self.left@
    }

    /// The right samples waiting.
    pub closed spec fn right(&self) -> Seq<i16> {
        self.right@
    }

    /// Both sides hold equally many samples.
    pub closed spec fn wf(&self) -> bool {
        self.left@.len() == self.right@.len()
    }

    /// An empty queue.
    pub fn new() -> (r: Self)
        ensures
            r.wf(),
            r.left() == Seq::<i16>::empty(),
            r.right() == Seq::<i16>::empty(),
    {
        SampleQueue { left: Vec::new(), right: Vec::new() }
    }

    /// Whether fewer than `chunk_size` samples wait, so more must be decoded.
    pub fn needs_more(&self, chunk_size: usize) -> (r: bool)
        ensures
            r == (self.left().len() < chunk_size),
    {
        self.left.len() < chunk_size
    }

    /// Appends newly decoded samples.
    pub fn extend(&mut self, left: Vec<i16>, right: Vec<i16>)
        requires
            old(self).wf(),
            left@.len() == right@.len(),
        ensures
            final(self).wf(),
            final(self).left() == old(self).left() + left@,
            final(self).right() == old(self).right() + right@,
    {
        let mut l = left;
        let mut r = right;
        self.left.append(&mut l);
        self.right.append(&mut r);
    }

    /// Hands out the next chunk: up to `chunk_size` samples from the front of
    /// each side; `None` when nothing waits.
    pub fn take_chunk(&mut self, chunk_size: usize) -> (r: Option<(Vec<i16>, Vec<i16>)>)
        requires
            old(self).wf(),
        ensures
            final(self).wf(),
            old(self).left().len() == 0 ==> r is None && *final(self) == *old(self),
            old(self).left().len() > 0 ==> {
                let n = if chunk_size < old(self).left().len() {
                    chunk_size as int
                } else {
                    old(self).left().len() as int
                };
                &&& r matches Some((l, rr)) && l@ == old(self).left().take(n) && rr@ == old(
                    self,
                ).right().take(n)
                &&& final(self).left() == old(self).left().skip(n)
                &&& final(self).right() == old(self).right().skip(n)
            },
    {
        let len = self.left.len();
        if len == 0 {
            return None;
        }
        let n = if chunk_size < len {
            chunk_size
        } else {
            len
        };
        let l = slice_to_vec(slice_subrange(self.left.as_slice(), 0, n));
        let r = slice_to_vec(slice_subrange(self.right.as_slice(), 0, n));
        let rest_l = slice_to_vec(slice_subrange(self.left.as_slice(), n, len));
        let rest_r = slice_to_vec(slice_subrange(self.right.as_slice(), n, len));
        self.left = rest_l;
        self.right = rest_r;
        assert(l@ =~= old(self).left().take(n as int));
        assert(r@ =~= old(self).right().take(n as int));
        assert(self.left@ =~= old(self).left().skip(n as int));
        assert(self.right@ =~= old(self).right().skip(n as int));
        Some((l, r))
    }
}

} // verus!
