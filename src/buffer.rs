//! A per-stream FIFO of packets and the staleness evictor that trims it.
use std::collections::VecDeque;
use vstd::prelude::*;

use crate::packet::Packet;

verus! {

/// Packets are in non-decreasing order of capture time.
pub open spec fn is_ordered(s: Seq<Packet>) -> bool {
    forall|i: int, j: int| 0 <= i <= j < s.len() ==> s[i].captured_at <= s[j].captured_at
}

/// A packet is stale at `now` when it was captured before `now - bound`.
pub open spec fn is_stale(p: Packet, now: u64, bound: u64) -> bool {
    (p.captured_at as int) < now as int - bound as int
}

/// How many packets at the front of `s` are stale, up to the first fresh one.
pub open spec fn stale_prefix_len(s: Seq<Packet>, now: u64, bound: u64) -> nat
    decreases s.len(),
{
    if s.len() > 0 && is_stale(s[0], now, bound) {
        1 + stale_prefix_len(s.drop_first(), now, bound)
    } else {
        0
    }
}

/// What is left of `s` after one eviction pass at `now`.
pub open spec fn after_eviction(s: Seq<Packet>, now: u64, bound: u64) -> Seq<Packet> {
    s.skip(stale_prefix_len(s, now, bound) as int)
}

/// The stale prefix is a prefix: it fits in `s`, every packet in it is stale,
/// and the packet after it, if any, is not.
pub proof fn lemma_stale_prefix(s: Seq<Packet>, now: u64, bound: u64)
    ensures
        stale_prefix_len(s, now, bound) <= s.len(),
        forall|i: int| 0 <= i < stale_prefix_len(s, now, bound) ==> is_stale(#[trigger] s[i], now, bound),
        stale_prefix_len(s, now, bound) < s.len() ==> !is_stale(s[stale_prefix_len(s, now, bound) as int], now, bound),
    decreases s.len(),
{
    if s.len() > 0 && is_stale(s[0], now, bound) {
        let t = s.drop_first();
        lemma_stale_prefix(t, now, bound);
        assert forall|i: int| 0 <= i < stale_prefix_len(s, now, bound) implies is_stale(#[trigger] s[i], now, bound) by {
            if i > 0 {
                assert(s[i] == t[i - 1]);
            }
        }
    }
}

/// One eviction pass removes packets from the front only, every packet it
/// removes is stale, and the first packet it keeps is not. When the packets
/// are in capture order it removes all and only the stale ones: none of what
/// is kept is stale.
pub proof fn lemma_eviction_exact(s: Seq<Packet>, now: u64, bound: u64)
    ensures
        ({
            let k = stale_prefix_len(s, now, bound) as int;
            &&& 0 <= k <= s.len()
            &&& after_eviction(s, now, bound) == s.subrange(k, s.len() as int)
            &&& forall|i: int| 0 <= i < k ==> is_stale(#[trigger] s[i], now, bound)
            &&& after_eviction(s, now, bound).len() > 0 ==> !is_stale(after_eviction(s, now, bound)[0], now, bound)
            &&& is_ordered(s) ==> forall|i: int| 0 <= i < s.len() ==> (is_stale(#[trigger] s[i], now, bound) <==> i < k)
        }),
{
    lemma_stale_prefix(s, now, bound);
    let k = stale_prefix_len(s, now, bound) as int;
    if is_ordered(s) {
        assert forall|i: int| 0 <= i < s.len() implies (is_stale(#[trigger] s[i], now, bound) <==> i < k) by {
            if i >= k {
                assert(s[k].captured_at <= s[i].captured_at);
            }
        }
    }
}

/// The order of capture is kept by what a buffer allows: appending a packet
/// captured no earlier than the tail, removing the head, and eviction.
pub proof fn lemma_order_kept(s: Seq<Packet>, p: Packet, now: u64, bound: u64)
    requires
        is_ordered(s),
    ensures
        s.len() == 0 || s.last().captured_at <= p.captured_at ==> is_ordered(s.push(p)),
        s.len() > 0 ==> is_ordered(s.drop_first()),
        is_ordered(after_eviction(s, now, bound)),
{
    lemma_stale_prefix(s, now, bound);
    let k = stale_prefix_len(s, now, bound) as int;
    let r = after_eviction(s, now, bound);
    assert forall|i: int, j: int| 0 <= i <= j < r.len() implies r[i].captured_at <= r[j].captured_at by {
        assert(r[i] == s[i + k] && r[j] == s[j + k]);
    }
    if s.len() > 0 {
        let t = s.drop_first();
        assert forall|i: int, j: int| 0 <= i <= j < t.len() implies t[i].captured_at <= t[j].captured_at by {
            assert(t[i] == s[i + 1] && t[j] == s[j + 1]);
        }
    }
    if s.len() == 0 || s.last().captured_at <= p.captured_at {
        let t = s.push(p);
        assert forall|i: int, j: int| 0 <= i <= j < t.len() implies t[i].captured_at <= t[j].captured_at by {
            if j == s.len() && i < s.len() {
                assert(s[i].captured_at <= s[s.len() - 1].captured_at);
            }
        }
    }
}

/// One ordered stream of packets awaiting synchronization. Only the head can
/// be read or removed, and packets are only appended at the tail.
pub struct StreamBuffer {
    packets: VecDeque<Packet>,
}

impl View for StreamBuffer {
    type V = Seq<Packet>;

    closed spec fn view(&self) -> Seq<Packet> {
        self.packets@
    }
}

impl StreamBuffer {
    pub fn new() -> (r: StreamBuffer)
        ensures
            r@ == Seq::<Packet>::empty(),
    {
        StreamBuffer { packets: VecDeque::new() }
    }

    pub fn len(&self) -> (r: usize)
        ensures
            r == self@.len(),
    {
        self.packets.len()
    }

    pub fn is_empty(&self) -> (r: bool)
        ensures
            r == (self@.len() == 0),
    {
        self.packets.len() == 0
    }

    /// The packet at the head, if any.
    pub fn front(&self) -> (r: Option<&Packet>)
        ensures
            self@.len() == 0 ==> r is None,
            self@.len() > 0 ==> r == Some(&self@[0]),
    {
        if self.packets.len() == 0 {
            None
        } else {
            Some(&self.packets[0])
        }
    }

    /// Appends a packet at the tail.
    pub fn push_back(&mut self, packet: Packet)
        ensures
            final(self)@ == old(self)@.push(packet),
    {
        self.packets.push_back(packet);
    }

    /// Removes and returns the head, if any.
    pub fn pop_front(&mut self) -> (r: Option<Packet>)
        ensures
            old(self)@.len() == 0 ==> r is None && final(self)@ == old(self)@,
            old(self)@.len() > 0 ==> r == Some(old(self)@[0]) && final(self)@ == old(self)@.drop_first(),
    {
        self.packets.pop_front()
    }
}

/// Drops every stale packet at the front of `buffer`, stopping at the first
/// packet captured at or after `now - bound`, or when the buffer is empty.
pub fn evict_stale(buffer: &mut StreamBuffer, now: u64, bound: u64)
    ensures
        final(buffer)@ == after_eviction(old(buffer)@, now, bound),
{
    let ghost start = buffer@;
    let ghost mut removed: int = 0;
    proof {
        lemma_stale_prefix(start, now, bound);
    }
    while buffer.len() > 0 && now >= bound && buffer.front().unwrap().captured_at < now - bound
        invariant
            0 <= removed <= stale_prefix_len(start, now, bound),
            stale_prefix_len(start, now, bound) <= start.len(),
            buffer@ == start.skip(removed),
            stale_prefix_len(start, now, bound) == removed + stale_prefix_len(buffer@, now, bound),
        decreases buffer@.len(),
    {
        let _ = buffer.pop_front();
        proof {
            assert(buffer@ =~= start.skip(removed + 1));
            removed = removed + 1;
        }
    }
    proof {
        assert(stale_prefix_len(buffer@, now, bound) == 0);
    }
}

} // verus!
