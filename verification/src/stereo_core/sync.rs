//! Clock synchronisation over a sliding window of ping/pong exchanges: the
//! offset in use is the median of the offsets in the window.
use vstd::prelude::*;
use vstd::relations::{sorted_by, total_ordering};
use vstd::seq_lib::{to_multiset_build, to_multiset_contains, to_multiset_insert, to_multiset_len, to_multiset_remove};
use std::collections::VecDeque;

use crate::int_repr::{as_signed, fits_i128};
use crate::sync::{compute_offset, estimate_in_range, estimated_offset, shift_time, shifted, unshift_time};
/// The current wall-clock time in microseconds since the Unix epoch.
pub use crate::sync::now_us;

verus! {

/// The largest round trip, in microseconds, of an exchange that is used.
pub const MAX_RTT_US: i128 = 100_000;

/// The order on offsets.
pub open spec fn offset_le() -> spec_fn(i128, i128) -> bool {
    |a: i128, b: i128| a <= b
}

/// The median of a window: the element at index `len / 2` of the window sorted
/// in ascending order.
pub open spec fn median(window: Seq<i128>) -> i128 {
    window.sort_by(offset_le())[(window.len() / 2) as int]
}

/// The round trip of an exchange, as `(client_recv_ts - client_send_ts) as i128`.
pub open spec fn round_trip(client_send_ts: u128, client_recv_ts: u128) -> int {
    as_signed((client_recv_ts - client_send_ts) as u128)
}

/// Whether an exchange is used: its round trip is at most `MAX_RTT_US`.
pub open spec fn exchange_used(client_send_ts: u128, client_recv_ts: u128) -> bool {
    round_trip(client_send_ts, client_recv_ts) <= MAX_RTT_US
}

/// The window after `offset` joins it: appended at the back, and the oldest
/// dropped when the window then holds more than `size` offsets.
pub open spec fn slide(window: Seq<i128>, size: nat, offset: i128) -> Seq<i128> {
    let w = window.push(offset);
    if w.len() > size {
        w.drop_first()
    } else {
        w
    }
}

/// One accepted offset taken into a window and its offset in use: the offset
/// slides into the window, and the offset in use becomes the window's median
/// (it stays as it was while the window is empty).
pub open spec fn sync_step(state: (Seq<i128>, i128), size: nat, offset: i128) -> (Seq<i128>, i128) {
    let w = slide(state.0, size, offset);
    (w, if w.len() > 0 {
        median(w)
    } else {
        state.1
    })
}

/// The window and offset in use after the accepted offsets `offsets` were
/// taken in turn, from an empty window and an offset of 0.
pub open spec fn sync_after(size: nat, offsets: Seq<i128>) -> (Seq<i128>, i128)
    decreases offsets.len(),
{
    if offsets.len() == 0 {
        (Seq::empty(), 0)
    } else {
        sync_step(sync_after(size, offsets.drop_last()), size, offsets.last())
    }
}

/// The last `min(offsets.len(), size)` of the offsets.
pub open spec fn latest(offsets: Seq<i128>, size: nat) -> Seq<i128> {
    if offsets.len() > size {
        offsets.skip(offsets.len() - size)
    } else {
        offsets
    }
}

/// Over any run of accepted exchanges from a fresh clock sync, the window holds
/// the latest offsets, as many as it can, and the offset in use is their
/// median (0 while the window is empty).
pub proof fn lemma_offset_after_updates(size: nat, offsets: Seq<i128>)
    ensures
        sync_after(size, offsets).0 == latest(offsets, size),
        sync_after(size, offsets).1 == if latest(offsets, size).len() > 0 {
            median(latest(offsets, size))
        } else {
            0
        },
    decreases offsets.len(),
{
    if offsets.len() > 0 {
        let prev = offsets.drop_last();
        lemma_offset_after_updates(size, prev);
        let w = latest(prev, size).push(offsets.last());
        if prev.len() > size {
            assert(w.drop_first() =~= offsets.skip(offsets.len() - size));
        } else if offsets.len() > size {
            assert(w =~= offsets);
            assert(w.drop_first() =~= offsets.skip(offsets.len() - size));
        } else {
            assert(w =~= offsets);
        }
    }
}

pub proof fn lemma_offset_le_total()
    ensures
        total_ordering(offset_le()),
{
}

/// Two ascending sequences with the same elements are equal.
pub proof fn lemma_sorted_permutation_unique(a: Seq<i128>, b: Seq<i128>)
    requires
        sorted_by(a, offset_le()),
        sorted_by(b, offset_le()),
        a.to_multiset() == b.to_multiset(),
    ensures
        a == b,
    decreases a.len(),
{
    to_multiset_len(a);
    to_multiset_len(b);
    if a.len() == 0 {
        assert(a =~= b);
    } else {
        to_multiset_contains(a, a[0]);
        to_multiset_contains(b, a[0]);
        to_multiset_contains(a, b[0]);
        to_multiset_contains(b, b[0]);
        assert(a.contains(a[0]));
        assert(b.contains(b[0]));
        let j = choose|j: int| 0 <= j < b.len() && b[j] == a[0];
        let k = choose|k: int| 0 <= k < a.len() && a[k] == b[0];
        if j > 0 {
            assert(offset_le()(b[0], b[j]));
        }
        if k > 0 {
            assert(offset_le()(a[0], a[k]));
        }
        assert(a[0] == b[0]);
        to_multiset_remove(a, 0);
        to_multiset_remove(b, 0);
        assert(a.remove(0) =~= a.drop_first());
        assert(b.remove(0) =~= b.drop_first());
        assert(sorted_by(a.drop_first(), offset_le())) by {
            assert forall|i: int, j2: int| 0 <= i < j2 < a.drop_first().len()
                implies #[trigger] offset_le()(a.drop_first()[i], a.drop_first()[j2]) by {
                assert(offset_le()(a[i + 1], a[j2 + 1]));
            }
        }
        assert(sorted_by(b.drop_first(), offset_le())) by {
            assert forall|i: int, j2: int| 0 <= i < j2 < b.drop_first().len()
                implies #[trigger] offset_le()(b.drop_first()[i], b.drop_first()[j2]) by {
                assert(offset_le()(b[i + 1], b[j2 + 1]));
            }
        }
        lemma_sorted_permutation_unique(a.drop_first(), b.drop_first());
        assert(a =~= b) by {
            assert forall|i: int| 0 <= i < a.len() implies a[i] == b[i] by {
                if i > 0 {
                    assert(a[i] == a.drop_first()[i - 1]);
                    assert(b[i] == b.drop_first()[i - 1]);
                }
            }
        }
    }
}

/// A copy of the window in ascending order.
fn sorted_copy(window: &VecDeque<i128>) -> (r: Vec<i128>)
    ensures
        r@ == window@.sort_by(offset_le()),
        r@.len() == window@.len(),
{
    let n = window.len();
    let mut out: Vec<i128> = Vec::new();
    let mut i: usize = 0;
    assert(out@ =~= window@.take(0));
    while i < n
        invariant
            n == window@.len(),
            i <= n,
            sorted_by(out@, offset_le()),
            out@.to_multiset() == window@.take(i as int).to_multiset(),
        decreases n - i,
    {
        let x = window[i];
        let mut pos: usize = 0;
        while pos < out.len() && out[pos] <= x
            invariant
                pos <= out@.len(),
                forall|j: int| 0 <= j < pos ==> out@[j] <= x,
            decreases out@.len() - pos,
        {
            pos = pos + 1;
        }
        let ghost before = out@;
        out.insert(pos, x);
        assert(sorted_by(out@, offset_le())) by {
            assert forall|a: int, b: int| 0 <= a < b < out@.len()
                implies #[trigger] offset_le()(out@[a], out@[b]) by {
                if b < pos {
                    assert(offset_le()(before[a], before[b]));
                } else if b == pos {
                    assert(before[a] <= x);
                } else if a == pos {
                    assert(before[pos as int] > x);
                    if b - 1 > pos {
                        assert(offset_le()(before[pos as int], before[b - 1]));
                    }
                } else if a < pos {
                    if a < b - 1 {
                        assert(offset_le()(before[a], before[b - 1]));
                    }
                } else {
                    assert(offset_le()(before[a - 1], before[b - 1]));
                }
            }
        }
        proof {
            to_multiset_insert(before, pos as int, x);
            assert(window@.take(i + 1) =~= window@.take(i as int).push(x));
            to_multiset_build(window@.take(i as int), x);
        }
        i = i + 1;
    }
    assert(window@.take(n as int) =~= window@);
    proof {
        lemma_offset_le_total();
        window@.lemma_sort_by_ensures(offset_le());
        lemma_sorted_permutation_unique(out@, window@.sort_by(offset_le()));
        to_multiset_len(out@);
        to_multiset_len(window@);
    }
    out
}

/// Clock synchronisation over a window of recent exchanges.
pub struct ClockSync {
    offsets: VecDeque<i128>,
    /// The offset `server_time - client_time` in use: the median of the window.
    pub current_offset: i128,
    window_size: usize,
}

impl ClockSync {
    /// The offsets of the recent exchanges, oldest first.
    pub closed spec fn window(&self) -> Seq<i128> {
        self.offsets@
    }

    /// The offset in use, `current_offset`.
    pub closed spec fn offset(&self) -> i128 {
        self.current_offset
    }

    /// The offset in use (the field `current_offset`), as the contracts name it.
    pub fn offset_in_use(&self) -> (r: i128)
        ensures
            r == self.offset(),
    {
        self.current_offset
    }

    /// The most offsets the window holds.
    pub closed spec fn capacity(&self) -> nat {
        self.window_size as nat
    }

    /// The window never holds more than its capacity.
    pub closed spec fn wf(&self) -> bool {
        self.offsets@.len() <= self.window_size
    }

    /// An empty window of `window_size` offsets and an offset of 0.
    pub fn new(window_size: usize) -> (r: Self)
        ensures
            r.wf(),
            r.window() == Seq::<i128>::empty(),
            r.capacity() == window_size,
            r.offset() == 0,
    {
        ClockSync { offsets: VecDeque::with_capacity(window_size), current_offset: 0, window_size }
    }

    /// Takes one exchange into account. An exchange whose round trip exceeds
    /// `MAX_RTT_US` changes nothing; otherwise its offset joins the window and
    /// the offset in use becomes the median of the window (kept as it was when
    /// the window stays empty, which is when its capacity is 0).
    pub fn update(&mut self, client_send_ts: u128, server_ts: u128, client_recv_ts: u128)
        requires
            old(self).wf(),
            client_send_ts <= client_recv_ts,
            exchange_used(client_send_ts, client_recv_ts) ==> estimate_in_range(
                client_send_ts,
                server_ts,
                client_recv_ts,
            ),
        ensures
            final(self).wf(),
            final(self).capacity() == old(self).capacity(),
            !exchange_used(client_send_ts, client_recv_ts) ==> *final(self) == *old(self),
            exchange_used(client_send_ts, client_recv_ts) ==> (final(self).window(), final(self).offset())
                == sync_step(
                (old(self).window(), old(self).offset()),
                old(self).capacity(),
                estimated_offset(client_send_ts, server_ts, client_recv_ts) as i128,
            ),
    {
        let rtt = crate::int_repr::to_signed(client_recv_ts - client_send_ts);
        if rtt > MAX_RTT_US {
            return;
        }
        let offset = compute_offset(client_send_ts, server_ts, client_recv_ts);
        let ghost w = slide(self.offsets@, self.window_size as nat, offset);
        self.offsets.push_back(offset);
        if self.offsets.len() > self.window_size {
            self.offsets.pop_front();
        }
        assert(self.offsets@ =~= w);
        let sorted = sorted_copy(&self.offsets);
        if sorted.len() > 0 {
            self.current_offset = sorted[sorted.len() / 2];
            assert(self.current_offset == median(w));
        }
    }

    /// The server time at client time `client_time`.
    pub fn to_server_time(&self, client_time: u128) -> (r: u128)
        requires
            fits_i128(as_signed(client_time) + self.offset()),
        ensures
            r == shifted(client_time, self.offset() as int),
    {
        shift_time(client_time, self.current_offset)
    }

    /// The client time at server time `server_time`.
    pub fn to_client_time(&self, server_time: u128) -> (r: u128)
        requires
            fits_i128(as_signed(server_time) - self.offset()),
        ensures
            r == shifted(server_time, -(self.offset() as int)),
    {
        unshift_time(server_time, self.current_offset)
    }
}

/// The median of a window is one of its offsets: the offset in use is always
/// one that was measured.
pub proof fn lemma_median_in_window(window: Seq<i128>)
    requires
        window.len() > 0,
    ensures
        window.contains(median(window)),
{
    lemma_offset_le_total();
    window.lemma_sort_by_ensures(offset_le());
    let sorted = window.sort_by(offset_le());
    to_multiset_len(window);
    to_multiset_len(sorted);
    let k = (window.len() / 2) as int;
    to_multiset_contains(sorted, sorted[k]);
    to_multiset_contains(window, sorted[k]);
    assert(sorted.contains(sorted[k]));
}

} // verus!
