//! The two per-stream buffers, with packets routed by their kind.
use vstd::prelude::*;

use crate::buffer::{after_eviction, evict_stale, lemma_stale_prefix, StreamBuffer};
use crate::packet::{Packet, StreamKind};

verus! {

/// Every packet of `s` belongs to stream `kind`.
pub open spec fn all_of_kind(s: Seq<Packet>, kind: StreamKind) -> bool {
    forall|i: int| 0 <= i < s.len() ==> (#[trigger] s[i]).kind == kind
}

/// The audio buffer and the video buffer.
pub struct DualStreamBuffer {
    audio: StreamBuffer,
    video: StreamBuffer,
}

impl DualStreamBuffer {
    pub closed spec fn audio(&self) -> Seq<Packet> {
        self.audio@
    }

    pub closed spec fn video(&self) -> Seq<Packet> {
        self.video@
    }

    /// The buffered packets of one stream, head first.
    pub open spec fn queue(&self, kind: StreamKind) -> Seq<Packet> {
        match kind {
            StreamKind::Audio => self.audio(),
            StreamKind::Video => self.video(),
        }
    }

    /// Each buffer holds only packets of its own stream.
    pub open spec fn wf(&self) -> bool {
        all_of_kind(self.audio(), StreamKind::Audio) && all_of_kind(self.video(), StreamKind::Video)
    }

    pub fn new() -> (r: DualStreamBuffer)
        ensures
            r.wf(),
            r.audio() == Seq::<Packet>::empty(),
            r.video() == Seq::<Packet>::empty(),
    {
        DualStreamBuffer { audio: StreamBuffer::new(), video: StreamBuffer::new() }
    }

    /// Appends `packet` at the tail of the buffer of its own stream.
    pub fn admit_packet(&mut self, packet: Packet)
        requires
            old(self).wf(),
        ensures
            final(self).wf(),
            final(self).queue(packet.kind) == old(self).queue(packet.kind).push(packet),
            packet.kind == StreamKind::Audio ==> final(self).video() == old(self).video(),
            packet.kind == StreamKind::Video ==> final(self).audio() == old(self).audio(),
    {
        match packet.kind {
            StreamKind::Audio => self.audio.push_back(packet),
            StreamKind::Video => self.video.push_back(packet),
        }
    }

    /// Number of packets buffered for `kind`.
    pub fn len(&self, kind: StreamKind) -> (r: usize)
        ensures
            r == self.queue(kind).len(),
    {
        match kind {
            StreamKind::Audio => self.audio.len(),
            StreamKind::Video => self.video.len(),
        }
    }

    /// The head of the buffer of `kind`, if any.
    pub fn front(&self, kind: StreamKind) -> (r: Option<&Packet>)
        ensures
            self.queue(kind).len() == 0 ==> r is None,
            self.queue(kind).len() > 0 ==> r == Some(&self.queue(kind)[0]),
    {
        match kind {
            StreamKind::Audio => self.audio.front(),
            StreamKind::Video => self.video.front(),
        }
    }

    /// Removes and returns the head of the buffer of `kind`, if any.
    pub fn pop_front(&mut self, kind: StreamKind) -> (r: Option<Packet>)
        requires
            old(self).wf(),
        ensures
            final(self).wf(),
            old(self).queue(kind).len() == 0 ==> r is None && final(self).queue(kind) == old(self).queue(kind),
            old(self).queue(kind).len() > 0 ==> r == Some(old(self).queue(kind)[0])
                && final(self).queue(kind) == old(self).queue(kind).drop_first(),
            kind == StreamKind::Audio ==> final(self).video() == old(self).video(),
            kind == StreamKind::Video ==> final(self).audio() == old(self).audio(),
    {
        match kind {
            StreamKind::Audio => self.audio.pop_front(),
            StreamKind::Video => self.video.pop_front(),
        }
    }

    /// Runs the staleness evictor on both buffers.
    pub fn evict_stale(&mut self, now: u64, bound: u64)
        requires
            old(self).wf(),
        ensures
            final(self).wf(),
            final(self).audio() == after_eviction(old(self).audio(), now, bound),
            final(self).video() == after_eviction(old(self).video(), now, bound),
    {
        proof {
            lemma_stale_prefix(self.audio@, now, bound);
            lemma_stale_prefix(self.video@, now, bound);
        }
        evict_stale(&mut self.audio, now, bound);
        evict_stale(&mut self.video, now, bound);
        assert(forall|i: int| 0 <= i < self.audio@.len() ==> self.audio@[i] == old(self).audio@[i + (old(self).audio@.len() - self.audio@.len())]);
        assert(forall|i: int| 0 <= i < self.video@.len() ==> self.video@[i] == old(self).video@[i + (old(self).video@.len() - self.video@.len())]);
    }
}

} // verus!
