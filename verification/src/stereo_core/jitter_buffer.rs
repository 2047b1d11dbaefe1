//! A jitter buffer: it holds the packets that arrived, in sequence order, and
//! releases the next one when its playback time has come.
use vstd::prelude::*;

use vstd::seq_lib::{to_multiset_build, to_multiset_contains, to_multiset_insert, to_multiset_len};

use crate::stereo_core::protocol::{AudioPacket, PacketView};

verus! {

/// The contents of a jitter buffer.
pub struct JitterState {
    /// The packets waiting, in ascending sequence order; packets with the same
    /// sequence number in the order they arrived.
    pub packets: Seq<PacketView>,
    /// The sequence number of the packet played last.
    pub last_played: Option<u32>,
}

/// Whether the packets are in ascending sequence order.
pub open spec fn seq_ordered(packets: Seq<PacketView>) -> bool {
    forall|i: int, j: int| 0 <= i < j < packets.len() ==> packets[i].seq <= packets[j].seq
}

/// The invariant of a jitter buffer: packets in sequence order, none of them
/// older than the packet played last.
pub open spec fn jitter_wf(s: JitterState) -> bool {
    &&& seq_ordered(s.packets)
    &&& (s.last_played matches Some(l) ==> forall|i: int|
        0 <= i < s.packets.len() ==> l <= #[trigger] s.packets[i].seq)
}

/// Whether `pos` is where `p` goes in `packets`: after every packet whose
/// sequence number is at most `p.seq`, before every other.
pub open spec fn insertion_point(packets: Seq<PacketView>, p: PacketView, pos: int) -> bool {
    &&& 0 <= pos <= packets.len()
    &&& forall|j: int| 0 <= j < pos ==> #[trigger] packets[j].seq <= p.seq
    &&& forall|j: int| pos <= j < packets.len() ==> #[trigger] packets[j].seq > p.seq
}

/// Whether `p` is older than (or as old as) the packet played last.
pub open spec fn already_played(s: JitterState, p: PacketView) -> bool {
    s.last_played matches Some(l) && p.seq <= l
}

/// The buffer after `p` arrives: unchanged when `p` is not newer than the
/// packet played last; otherwise `p` stands at its insertion point.
pub open spec fn pushed(s: JitterState, p: PacketView) -> JitterState {
    if already_played(s, p) {
        s
    } else {
        let pos = choose|pos: int| insertion_point(s.packets, p, pos);
        JitterState { packets: s.packets.insert(pos, p), last_played: s.last_played }
    }
}

/// Whether the first packet is due at `current_time`.
pub open spec fn frame_due(s: JitterState, current_time: u128) -> bool {
    s.packets.len() > 0 && current_time >= s.packets[0].timestamp
}

/// The buffer after a due frame is released: the first packet leaves and
/// becomes the packet played last.
pub open spec fn popped(s: JitterState, current_time: u128) -> JitterState {
    if frame_due(s, current_time) {
        JitterState { packets: s.packets.drop_first(), last_played: Some(s.packets[0].seq) }
    } else {
        s
    }
}

/// What `pop_frame` hands out at `current_time`.
pub open spec fn released(s: JitterState, current_time: u128) -> Option<(u32, Seq<u8>)> {
    if frame_due(s, current_time) {
        Some((s.packets[0].seq, s.packets[0].data))
    } else {
        None
    }
}

/// The buffer after all of `ps` arrived, first to last.
pub open spec fn pushed_all(s: JitterState, ps: Seq<PacketView>) -> JitterState
    decreases ps.len(),
{
    if ps.len() == 0 {
        s
    } else {
        pushed(pushed_all(s, ps.drop_last()), ps.last())
    }
}

/// In an ordered sequence there is exactly one insertion point.
pub proof fn lemma_insertion_point_unique(packets: Seq<PacketView>, p: PacketView, a: int, b: int)
    requires
        insertion_point(packets, p, a),
        insertion_point(packets, p, b),
    ensures
        a == b,
{
    if a < b {
        assert(packets[a].seq > p.seq);
    } else if b < a {
        assert(packets[b].seq > p.seq);
    }
}

/// An ordered sequence has an insertion point for every packet.
pub proof fn lemma_insertion_point_exists(packets: Seq<PacketView>, p: PacketView) -> (pos: int)
    requires
        seq_ordered(packets),
    ensures
        insertion_point(packets, p, pos),
    decreases packets.len(),
{
    if packets.len() == 0 {
        0
    } else if packets.last().seq <= p.seq {
        let n = packets.len() as int;
        assert forall|j: int| 0 <= j < n implies #[trigger] packets[j].seq <= p.seq by {
            if j < n - 1 {
                assert(packets[j].seq <= packets[n - 1].seq);
            }
        }
        n
    } else {
        let rest = packets.drop_last();
        assert(seq_ordered(rest)) by {
            assert forall|i: int, j: int| 0 <= i < j < rest.len() implies rest[i].seq
                <= rest[j].seq by {
                assert(packets[i].seq <= packets[j].seq);
            }
        }
        let pos = lemma_insertion_point_exists(rest, p);
        assert forall|j: int| pos <= j < packets.len() implies #[trigger] packets[j].seq
            > p.seq by {
            if j < packets.len() - 1 {
                assert(rest[j].seq > p.seq);
            }
        }
        assert forall|j: int| 0 <= j < pos implies #[trigger] packets[j].seq <= p.seq by {
            assert(rest[j].seq <= p.seq);
        }
        pos
    }
}

/// Every arrival keeps the buffer in sequence order and newer than what was played.
pub proof fn lemma_pushed_keeps_order(s: JitterState, p: PacketView)
    requires
        jitter_wf(s),
    ensures
        jitter_wf(pushed(s, p)),
{
    if !already_played(s, p) {
        let pos0 = lemma_insertion_point_exists(s.packets, p);
        let pos = choose|pos: int| insertion_point(s.packets, p, pos);
        lemma_insertion_point_unique(s.packets, p, pos0, pos);
        let t = s.packets.insert(pos, p);
        assert forall|i: int, j: int| 0 <= i < j < t.len() implies t[i].seq <= t[j].seq by {
            if j < pos {
                assert(s.packets[i].seq <= s.packets[j].seq);
            } else if j == pos {
                assert(s.packets[i].seq <= p.seq);
            } else if i == pos {
                assert(s.packets[j - 1].seq > p.seq);
            } else if i < pos {
                assert(s.packets[i].seq <= s.packets[j - 1].seq);
            } else {
                assert(s.packets[i - 1].seq <= s.packets[j - 1].seq);
            }
        }
        if s.last_played is Some {
            let l = s.last_played->0;
            assert forall|i: int| 0 <= i < t.len() implies l <= #[trigger] t[i].seq by {
                if i < pos {
                    assert(l <= s.packets[i].seq);
                } else if i > pos {
                    assert(l <= s.packets[i - 1].seq);
                }
            }
        }
    }
}

/// Releasing keeps the buffer in order; the frame released is the one with the
/// smallest sequence number, it becomes the frame played last, and it is not
/// older than the frame played before it.
pub proof fn lemma_release_in_sequence_order(s: JitterState, current_time: u128)
    requires
        jitter_wf(s),
    ensures
        jitter_wf(popped(s, current_time)),
        released(s, current_time) matches Some((q, _)) ==> {
            &&& popped(s, current_time).last_played == Some(q)
            &&& forall|i: int| 0 <= i < s.packets.len() ==> q <= #[trigger] s.packets[i].seq
            &&& (s.last_played matches Some(l) ==> l <= q)
        },
{
    if frame_due(s, current_time) {
        let q = s.packets[0].seq;
        assert forall|i: int| 0 <= i < s.packets.len() implies q <= #[trigger] s.packets[i].seq by {
            if i > 0 {
                assert(s.packets[0].seq <= s.packets[i].seq);
            }
        }
        let t = popped(s, current_time).packets;
        assert forall|i: int| 0 <= i < t.len() implies q <= #[trigger] t[i].seq by {
            assert(t[i] == s.packets[i + 1]);
        }
        assert forall|i: int, j: int| 0 <= i < j < t.len() implies t[i].seq <= t[j].seq by {
            assert(s.packets[i + 1].seq <= s.packets[j + 1].seq);
        }
    }
}

/// Playback never goes back in sequence: once a frame has been played, whatever
/// arrives afterwards, the next frame released is not older than it.
pub proof fn lemma_playback_never_rewinds(s: JitterState, arrivals: Seq<PacketView>, current_time: u128)
    requires
        jitter_wf(s),
        s.last_played is Some,
    ensures
        released(pushed_all(s, arrivals), current_time) matches Some((q, _)) ==> s.last_played->0 <= q,
        pushed_all(s, arrivals).last_played == s.last_played,
        jitter_wf(pushed_all(s, arrivals)),
    decreases arrivals.len(),
{
    if arrivals.len() > 0 {
        lemma_playback_never_rewinds(s, arrivals.drop_last(), current_time);
        lemma_pushed_keeps_order(pushed_all(s, arrivals.drop_last()), arrivals.last());
    }
    lemma_release_in_sequence_order(pushed_all(s, arrivals), current_time);
}

/// The contents of a new or cleared buffer.
pub open spec fn fresh_state() -> JitterState {
    JitterState { packets: Seq::empty(), last_played: None }
}

/// The buffer after `n` releases attempted at `current_time`.
pub open spec fn popped_times(s: JitterState, current_time: u128, n: nat) -> JitterState
    decreases n,
{
    if n == 0 {
        s
    } else {
        popped(popped_times(s, current_time, (n - 1) as nat), current_time)
    }
}

/// Whether no two packets share a sequence number.
pub open spec fn distinct_seqs(packets: Seq<PacketView>) -> bool {
    forall|i: int, j: int| 0 <= i < j < packets.len() ==> packets[i].seq != packets[j].seq
}

/// Arrivals with distinct sequence numbers into a fresh buffer are all kept,
/// in strictly ascending sequence order.
proof fn lemma_fresh_arrivals_kept(arrivals: Seq<PacketView>)
    requires
        distinct_seqs(arrivals),
    ensures
        pushed_all(fresh_state(), arrivals).last_played is None,
        pushed_all(fresh_state(), arrivals).packets.to_multiset() == arrivals.to_multiset(),
        forall|i: int, j: int|
            0 <= i < j < pushed_all(fresh_state(), arrivals).packets.len() ==> pushed_all(
                fresh_state(),
                arrivals,
            ).packets[i].seq < pushed_all(fresh_state(), arrivals).packets[j].seq,
    decreases arrivals.len(),
{
    if arrivals.len() == 0 {
        assert(arrivals.to_multiset() =~= Seq::<PacketView>::empty().to_multiset()) by {
            assert(arrivals =~= Seq::<PacketView>::empty());
        }
    } else {
        let prefix = arrivals.drop_last();
        let p = arrivals.last();
        let n = arrivals.len() as int;
        assert(distinct_seqs(prefix)) by {
            assert forall|i: int, j: int| 0 <= i < j < prefix.len() implies prefix[i].seq
                != prefix[j].seq by {
                assert(arrivals[i].seq != arrivals[j].seq);
            }
        }
        lemma_fresh_arrivals_kept(prefix);
        let s = pushed_all(fresh_state(), prefix);
        assert(seq_ordered(s.packets)) by {
            assert forall|i: int, j: int| 0 <= i < j < s.packets.len() implies s.packets[i].seq
                <= s.packets[j].seq by {
                assert(s.packets[i].seq < s.packets[j].seq);
            }
        }
        let pos0 = lemma_insertion_point_exists(s.packets, p);
        let pos = choose|pos: int| insertion_point(s.packets, p, pos);
        lemma_insertion_point_unique(s.packets, p, pos0, pos);
        let t = s.packets.insert(pos, p);
        assert(pushed_all(fresh_state(), arrivals).packets == t);
        to_multiset_insert(s.packets, pos, p);
        assert(arrivals =~= prefix.push(p));
        to_multiset_build(prefix, p);
        assert forall|k: int| 0 <= k < s.packets.len() implies #[trigger] s.packets[k].seq != p.seq by {
            let x = s.packets[k];
            assert(s.packets.contains(x));
            to_multiset_contains(s.packets, x);
            to_multiset_contains(prefix, x);
            let j = choose|j: int| 0 <= j < prefix.len() && prefix[j] == x;
            assert(arrivals[j].seq != arrivals[n - 1].seq);
        }
        assert forall|i: int, j: int| 0 <= i < j < t.len() implies t[i].seq < t[j].seq by {
            if j < pos {
                assert(s.packets[i].seq < s.packets[j].seq);
            } else if j == pos {
                assert(s.packets[i].seq <= p.seq);
                assert(s.packets[i].seq != p.seq);
            } else if i == pos {
                assert(s.packets[j - 1].seq > p.seq);
            } else if i < pos {
                assert(s.packets[i].seq < s.packets[j - 1].seq);
            } else {
                assert(s.packets[i - 1].seq < s.packets[j - 1].seq);
            }
        }
    }
}

/// Releases at a time when every packet is due hand the packets out front to back.
proof fn lemma_drain_front_to_back(s: JitterState, current_time: u128, k: nat)
    requires
        k <= s.packets.len(),
        forall|i: int| 0 <= i < s.packets.len() ==> #[trigger] s.packets[i].timestamp <= current_time,
    ensures
        popped_times(s, current_time, k).packets == s.packets.skip(k as int),
    decreases k,
{
    if k == 0 {
        assert(s.packets.skip(0) =~= s.packets);
    } else {
        lemma_drain_front_to_back(s, current_time, (k - 1) as nat);
        let q = popped_times(s, current_time, (k - 1) as nat);
        assert(q.packets[0] == s.packets[k - 1]);
        assert(q.packets.drop_first() =~= s.packets.skip(k as int));
    }
}

/// Draining a buffer: after packets with distinct sequence numbers arrive, in
/// any order, into a new or cleared buffer, releases at a time when all of them
/// are due hand out every packet exactly once, in strictly ascending sequence
/// order, and then nothing.
pub proof fn lemma_drain_releases_each_once_in_order(arrivals: Seq<PacketView>, current_time: u128)
    requires
        distinct_seqs(arrivals),
        forall|i: int| 0 <= i < arrivals.len() ==> #[trigger] arrivals[i].timestamp <= current_time,
    ensures
        pushed_all(fresh_state(), arrivals).packets.to_multiset() == arrivals.to_multiset(),
        pushed_all(fresh_state(), arrivals).packets.len() == arrivals.len(),
        forall|i: int, j: int|
            0 <= i < j < arrivals.len() ==> pushed_all(fresh_state(), arrivals).packets[i].seq
                < pushed_all(fresh_state(), arrivals).packets[j].seq,
        forall|k: nat|
            k < arrivals.len() ==> released(
                #[trigger] popped_times(pushed_all(fresh_state(), arrivals), current_time, k),
                current_time,
            ) == Some(
                (
                    pushed_all(fresh_state(), arrivals).packets[k as int].seq,
                    pushed_all(fresh_state(), arrivals).packets[k as int].data,
                ),
            ),
        released(
            popped_times(pushed_all(fresh_state(), arrivals), current_time, arrivals.len()),
            current_time,
        ) is None,
{
    lemma_fresh_arrivals_kept(arrivals);
    let s = pushed_all(fresh_state(), arrivals);
    to_multiset_len(s.packets);
    to_multiset_len(arrivals);
    assert forall|i: int| 0 <= i < s.packets.len() implies #[trigger] s.packets[i].timestamp
        <= current_time by {
        let x = s.packets[i];
        assert(s.packets.contains(x));
        to_multiset_contains(s.packets, x);
        to_multiset_contains(arrivals, x);
        let j = choose|j: int| 0 <= j < arrivals.len() && arrivals[j] == x;
        assert(arrivals[j].timestamp <= current_time);
    }
    assert forall|k: nat| k < arrivals.len() implies released(
        #[trigger] popped_times(s, current_time, k),
        current_time,
    ) == Some((s.packets[k as int].seq, s.packets[k as int].data)) by {
        lemma_drain_front_to_back(s, current_time, k);
        assert(popped_times(s, current_time, k).packets[0] == s.packets[k as int]);
    }
    lemma_drain_front_to_back(s, current_time, arrivals.len());
}

/// A jitter buffer that orders packets by sequence number and releases each
/// when its playback time has come.
pub struct JitterBuffer {
    buffer: Vec<AudioPacket>,
    last_played_seq: Option<u32>,
    /// The playback delay the buffer is meant for, in microseconds.
    pub target_delay_us: u128,
}

impl JitterBuffer {
    /// The packets waiting and the sequence number played last.
    pub closed spec fn state(&self) -> JitterState {
        JitterState {
            packets: self.buffer@.map_values(|p: AudioPacket| p@),
            last_played: self.last_played_seq,
        }
    }

    /// The delay the buffer was made with.
    pub closed spec fn delay(&self) -> u128 {
        self.target_delay_us
    }

    /// An empty buffer that has played nothing.
    pub fn new(target_delay_us: u128) -> (r: Self)
        ensures
            r.state().packets == Seq::<PacketView>::empty(),
            r.state().last_played == None::<u32>,
            r.delay() == target_delay_us,
            jitter_wf(r.state()),
    {
        let r = JitterBuffer { buffer: Vec::new(), last_played_seq: None, target_delay_us };
        assert(r.state().packets =~= Seq::<PacketView>::empty());
        r
    }

    /// Takes an arrived packet. A packet not newer than the one played last is
    /// dropped; any other is kept in sequence order.
    pub fn push(&mut self, packet: AudioPacket)
        requires
            jitter_wf(old(self).state()),
        ensures
            jitter_wf(final(self).state()),
            final(self).state() == pushed(old(self).state(), packet@),
            final(self).delay() == old(self).delay(),
    {
        if let Some(last) = self.last_played_seq {
            if packet.seq <= last {
                return;
            }
        }
        let ghost s = self.state();
        let ghost p = packet@;
        let mut pos: usize = 0;
        while pos < self.buffer.len() && self.buffer[pos].seq <= packet.seq
            invariant
                pos <= self.buffer@.len(),
                s == self.state(),
                forall|j: int| 0 <= j < pos ==> #[trigger] s.packets[j].seq <= packet.seq,
            decreases self.buffer@.len() - pos,
        {
            pos = pos + 1;
        }
        proof {
            assert forall|j: int| pos <= j < s.packets.len() implies #[trigger] s.packets[j].seq
                > p.seq by {
                assert(s.packets[pos as int].seq > p.seq);
                if j > pos {
                    assert(s.packets[pos as int].seq <= s.packets[j].seq);
                }
            }
            assert(insertion_point(s.packets, p, pos as int));
            let chosen = choose|q: int| insertion_point(s.packets, p, q);
            lemma_insertion_point_unique(s.packets, p, pos as int, chosen);
        }
        let ghost before = self.buffer@;
        self.buffer.insert(pos, packet);
        proof {
            assert(self.buffer@ =~= before.insert(pos as int, packet));
            assert(self.state().packets =~= s.packets.insert(pos as int, p));
        }
    }

    /// Releases the first packet, as `(seq, data)`, when its playback time
    /// `timestamp` has come by `current_time`; otherwise releases nothing.
    pub fn pop_frame(&mut self, current_time: u128) -> (r: Option<(u32, Vec<u8>)>)
        requires
            jitter_wf(old(self).state()),
        ensures
            jitter_wf(final(self).state()),
            final(self).state() == popped(old(self).state(), current_time),
            r matches Some((seq, data)) ==> released(old(self).state(), current_time) == Some(
                (seq, data@),
            ),
            r is None ==> released(old(self).state(), current_time) is None,
            final(self).delay() == old(self).delay(),
    {
        let ghost s = self.state();
        if self.buffer.len() > 0 && current_time >= self.buffer[0].timestamp {
            let pkt = self.buffer.remove(0);
            self.last_played_seq = Some(pkt.seq);
            proof {
                assert(self.state().packets =~= s.packets.drop_first());
                assert forall|i: int| 0 <= i < self.state().packets.len() implies pkt.seq
                    <= #[trigger] self.state().packets[i].seq by {
                    assert(s.packets[0].seq <= s.packets[i + 1].seq);
                }
            }
            return Some((pkt.seq, pkt.data));
        }
        None
    }

    /// Drops every packet and forgets what was played.
    pub fn clear(&mut self)
        ensures
            final(self).state().packets == Seq::<PacketView>::empty(),
            final(self).state().last_played == None::<u32>,
            jitter_wf(final(self).state()),
            final(self).delay() == old(self).delay(),
    {
        self.buffer.clear();
        self.last_played_seq = None;
        assert(self.state().packets =~= Seq::<PacketView>::empty());
    }
}

} // verus!
