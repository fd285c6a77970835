//! The synchronizer: owns both stream buffers, evicts stale packets and
//! decides which buffer head is handed out next.
use vstd::multiset::Multiset;
use vstd::prelude::*;
use vstd::seq_lib::{lemma_multiset_commutative, to_multiset_build, to_multiset_remove};

use crate::buffer::{after_eviction, lemma_stale_prefix, stale_prefix_len};
use crate::dual::DualStreamBuffer;
use crate::packet::{Packet, StreamKind};

verus! {

broadcast use vstd::multiset::group_multiset_axioms, vstd::seq_lib::group_to_multiset_ensures;

/// Which head to hand out, given the two buffers after eviction: none while
/// either is empty; audio when its head is no older than video's (audio wins
/// ties); video otherwise.
pub open spec fn emit_choice(audio: Seq<Packet>, video: Seq<Packet>) -> Option<StreamKind> {
    if audio.len() == 0 || video.len() == 0 {
        None
    } else if audio[0].captured_at >= video[0].captured_at {
        Some(StreamKind::Audio)
    } else {
        Some(StreamKind::Video)
    }
}

/// A handed-out head respects the tie-break rule against the other head it
/// was compared with: an audio head is captured no earlier than the video
/// head, a video head strictly later than the audio head.
pub proof fn lemma_emitted_head_rule(audio: Seq<Packet>, video: Seq<Packet>)
    ensures
        emit_choice(audio, video) == Some(StreamKind::Audio) ==> audio[0].captured_at >= video[0].captured_at,
        emit_choice(audio, video) == Some(StreamKind::Video) ==> video[0].captured_at > audio[0].captured_at,
        emit_choice(audio, video) is Some ==> audio.len() > 0 && video.len() > 0,
{
}

/// While either buffer is empty nothing is emitted, whatever the other holds
/// and whatever time it is: eviction cannot fill an empty buffer.
pub proof fn lemma_empty_buffer_blocks(audio: Seq<Packet>, video: Seq<Packet>, now: u64, bound: u64)
    requires
        audio.len() == 0 || video.len() == 0,
    ensures
        emit_choice(after_eviction(audio, now, bound), after_eviction(video, now, bound)) is None,
{
    lemma_stale_prefix(audio, now, bound);
    lemma_stale_prefix(video, now, bound);
}

/// What repeated synchronization steps at one instant `now` give, until a
/// step emits nothing: the emitted packets in order, then what is left of the
/// audio and of the video buffer. (Eviction never lengthens a buffer, see
/// `lemma_stale_prefix`; the length test only makes termination evident.)
pub open spec fn drain_outcome(audio: Seq<Packet>, video: Seq<Packet>, now: u64, bound: u64) -> (
    Seq<Packet>,
    Seq<Packet>,
    Seq<Packet>,
)
    decreases audio.len() + video.len(),
{
    let a = after_eviction(audio, now, bound);
    let v = after_eviction(video, now, bound);
    if a.len() <= audio.len() && v.len() <= video.len() {
        match emit_choice(a, v) {
            None => (Seq::empty(), a, v),
            Some(StreamKind::Audio) => {
                let rest = drain_outcome(a.drop_first(), v, now, bound);
                (seq![a[0]] + rest.0, rest.1, rest.2)
            },
            Some(StreamKind::Video) => {
                let rest = drain_outcome(a, v.drop_first(), now, bound);
                (seq![v[0]] + rest.0, rest.1, rest.2)
            },
        }
    } else {
        (Seq::empty(), audio, video)
    }
}

/// The synchronizer state. Besides the two buffers it keeps a ghost ledger:
/// every admitted packet gets an admission number, and each number is, at any
/// time, in exactly one of the audio buffer, the video buffer, the emitted
/// record or the evicted record.
pub struct Synchronizer {
    buffers: DualStreamBuffer,
    staleness_bound: u64,
    audio_ids: Ghost<Seq<nat>>,
    video_ids: Ghost<Seq<nat>>,
    emitted: Ghost<Seq<nat>>,
    evicted: Ghost<Seq<nat>>,
    admitted: Ghost<nat>,
}

impl Synchronizer {
    /// Buffered audio packets, head first.
    pub closed spec fn audio(&self) -> Seq<Packet> {
        self.buffers.audio()
    }

    /// Buffered video packets, head first.
    pub closed spec fn video(&self) -> Seq<Packet> {
        self.buffers.video()
    }

    pub open spec fn queue(&self, kind: StreamKind) -> Seq<Packet> {
        match kind {
            StreamKind::Audio => self.audio(),
            StreamKind::Video => self.video(),
        }
    }

    pub closed spec fn bound(&self) -> u64 {
        self.staleness_bound
    }

    /// Admission numbers of the buffered audio packets, in buffer order.
    pub closed spec fn audio_ids(&self) -> Seq<nat> {
        self.audio_ids@
    }

    /// Admission numbers of the buffered video packets, in buffer order.
    pub closed spec fn video_ids(&self) -> Seq<nat> {
        self.video_ids@
    }

    pub open spec fn queue_ids(&self, kind: StreamKind) -> Seq<nat> {
        match kind {
            StreamKind::Audio => self.audio_ids(),
            StreamKind::Video => self.video_ids(),
        }
    }

    /// Admission numbers of the emitted packets, in emission order.
    pub closed spec fn emitted_ids(&self) -> Seq<nat> {
        self.emitted@
    }

    /// Admission numbers of the evicted packets, in eviction order.
    pub closed spec fn evicted_ids(&self) -> Seq<nat> {
        self.evicted@
    }

    /// How many packets have been admitted so far.
    pub closed spec fn admitted_count(&self) -> nat {
        self.admitted@
    }

    /// All admission numbers held anywhere, with multiplicity.
    pub open spec fn ledger(&self) -> Multiset<nat> {
        self.audio_ids().to_multiset().add(self.video_ids().to_multiset()).add(
            self.emitted_ids().to_multiset(),
        ).add(self.evicted_ids().to_multiset())
    }

    pub open spec fn wf(&self) -> bool {
        &&& self.buffers_wf()
        &&& self.audio_ids().len() == self.audio().len()
        &&& self.video_ids().len() == self.video().len()
        &&& forall|id: nat| #[trigger]
            self.ledger().count(id) == if id < self.admitted_count() {
                1nat
            } else {
                0nat
            }
    }

    /// Each buffer holds only packets of its own stream.
    pub closed spec fn buffers_wf(&self) -> bool {
        self.buffers.wf()
    }

    /// An empty synchronizer that evicts packets older than `staleness_bound`.
    pub fn new(staleness_bound: u64) -> (r: Synchronizer)
        ensures
            r.wf(),
            r.bound() == staleness_bound,
            r.audio() == Seq::<Packet>::empty(),
            r.video() == Seq::<Packet>::empty(),
            r.emitted_ids() == Seq::<nat>::empty(),
            r.evicted_ids() == Seq::<nat>::empty(),
            r.admitted_count() == 0,
    {
        let r = Synchronizer {
            buffers: DualStreamBuffer::new(),
            staleness_bound,
            audio_ids: Ghost(Seq::empty()),
            video_ids: Ghost(Seq::empty()),
            emitted: Ghost(Seq::empty()),
            evicted: Ghost(Seq::empty()),
            admitted: Ghost(0),
        };
        assert forall|id: nat| #[trigger] r.ledger().count(id) == 0nat by {
            assert(r.audio_ids().to_multiset().count(id) <= r.audio_ids().to_multiset().len());
        }
        r
    }

    /// Every admitted packet ends in at most one of the emitted and evicted
    /// records, and in each at most once; a packet not yet admitted is in
    /// neither. A number that is emitted or evicted is no longer buffered.
    pub proof fn lemma_at_most_once(&self, id: nat)
        requires
            self.wf(),
        ensures
            !(self.emitted_ids().contains(id) && self.evicted_ids().contains(id)),
            self.emitted_ids().to_multiset().count(id) <= 1,
            self.evicted_ids().to_multiset().count(id) <= 1,
            id >= self.admitted_count() ==> !self.emitted_ids().contains(id) && !self.evicted_ids().contains(id),
            self.emitted_ids().contains(id) || self.evicted_ids().contains(id) ==> !self.audio_ids().contains(id)
                && !self.video_ids().contains(id),
    {
        assert(self.ledger().count(id) <= 1);
    }

    /// The configured staleness bound.
    pub fn staleness_bound(&self) -> (r: u64)
        ensures
            r == self.bound(),
    {
        self.staleness_bound
    }

    /// Number of packets buffered for `kind`.
    pub fn len(&self, kind: StreamKind) -> (r: usize)
        ensures
            r == self.queue(kind).len(),
    {
        self.buffers.len(kind)
    }

    /// The head of the buffer of `kind`, if any.
    pub fn front(&self, kind: StreamKind) -> (r: Option<&Packet>)
        ensures
            self.queue(kind).len() == 0 ==> r is None,
            self.queue(kind).len() > 0 ==> r == Some(&self.queue(kind)[0]),
    {
        self.buffers.front(kind)
    }

    /// Routes `packet` to the tail of its stream's buffer and gives it the
    /// next admission number.
    pub fn admit_packet(&mut self, packet: Packet)
        requires
            old(self).wf(),
        ensures
            final(self).wf(),
            final(self).bound() == old(self).bound(),
            final(self).admitted_count() == old(self).admitted_count() + 1,
            final(self).queue(packet.kind) == old(self).queue(packet.kind).push(packet),
            final(self).queue_ids(packet.kind) == old(self).queue_ids(packet.kind).push(
                old(self).admitted_count(),
            ),
            packet.kind == StreamKind::Audio ==> final(self).video() == old(self).video()
                && final(self).video_ids() == old(self).video_ids(),
            packet.kind == StreamKind::Video ==> final(self).audio() == old(self).audio()
                && final(self).audio_ids() == old(self).audio_ids(),
            final(self).emitted_ids() == old(self).emitted_ids(),
            final(self).evicted_ids() == old(self).evicted_ids(),
    {
        let ghost n = self.admitted@;
        let ghost old_ledger = self.ledger();
        let kind = packet.kind;
        self.buffers.admit_packet(packet);
        proof {
            match kind {
                StreamKind::Audio => {
                    to_multiset_build(self.audio_ids@, n);
                    self.audio_ids@ = self.audio_ids@.push(n);
                },
                StreamKind::Video => {
                    to_multiset_build(self.video_ids@, n);
                    self.video_ids@ = self.video_ids@.push(n);
                },
            }
            self.admitted@ = n + 1;
            assert(self.ledger() =~= old_ledger.insert(n));
        }
    }

    /// Runs the staleness evictor on both buffers at time `now`; the numbers
    /// of the dropped packets move to the evicted record.
    pub fn evict_stale(&mut self, now: u64)
        requires
            old(self).wf(),
        ensures
            final(self).wf(),
            final(self).bound() == old(self).bound(),
            final(self).admitted_count() == old(self).admitted_count(),
            final(self).audio() == after_eviction(old(self).audio(), now, old(self).bound()),
            final(self).video() == after_eviction(old(self).video(), now, old(self).bound()),
            final(self).audio_ids() == old(self).audio_ids().skip(
                stale_prefix_len(old(self).audio(), now, old(self).bound()) as int,
            ),
            final(self).video_ids() == old(self).video_ids().skip(
                stale_prefix_len(old(self).video(), now, old(self).bound()) as int,
            ),
            final(self).emitted_ids() == old(self).emitted_ids(),
            final(self).evicted_ids() == old(self).evicted_ids() + old(self).audio_ids().take(
                stale_prefix_len(old(self).audio(), now, old(self).bound()) as int,
            ) + old(self).video_ids().take(
                stale_prefix_len(old(self).video(), now, old(self).bound()) as int,
            ),
    {
        let ghost old_ledger = self.ledger();
        let ghost ka = stale_prefix_len(self.audio(), now, self.staleness_bound) as int;
        let ghost kv = stale_prefix_len(self.video(), now, self.staleness_bound) as int;
        proof {
            lemma_stale_prefix(self.audio(), now, self.staleness_bound);
            lemma_stale_prefix(self.video(), now, self.staleness_bound);
        }
        self.buffers.evict_stale(now, self.staleness_bound);
        proof {
            let a = self.audio_ids@;
            let v = self.video_ids@;
            let e = self.evicted@;
            assert(a =~= a.take(ka) + a.skip(ka));
            assert(v =~= v.take(kv) + v.skip(kv));
            lemma_multiset_commutative(a.take(ka), a.skip(ka));
            lemma_multiset_commutative(v.take(kv), v.skip(kv));
            lemma_multiset_commutative(e, a.take(ka));
            lemma_multiset_commutative(e + a.take(ka), v.take(kv));
            self.audio_ids@ = a.skip(ka);
            self.video_ids@ = v.skip(kv);
            self.evicted@ = e + a.take(ka) + v.take(kv);
            assert(self.ledger() =~= old_ledger);
        }
    }

    /// Removes the head of `kind`'s buffer and records its number as emitted.
    fn take_head(&mut self, kind: StreamKind) -> (r: Packet)
        requires
            old(self).wf(),
            old(self).queue(kind).len() > 0,
        ensures
            final(self).wf(),
            final(self).bound() == old(self).bound(),
            final(self).admitted_count() == old(self).admitted_count(),
            r == old(self).queue(kind)[0],
            final(self).queue(kind) == old(self).queue(kind).drop_first(),
            final(self).queue_ids(kind) == old(self).queue_ids(kind).drop_first(),
            kind == StreamKind::Audio ==> final(self).video() == old(self).video()
                && final(self).video_ids() == old(self).video_ids(),
            kind == StreamKind::Video ==> final(self).audio() == old(self).audio()
                && final(self).audio_ids() == old(self).audio_ids(),
            final(self).emitted_ids() == old(self).emitted_ids().push(old(self).queue_ids(kind)[0]),
            final(self).evicted_ids() == old(self).evicted_ids(),
    {
        let ghost old_ledger = self.ledger();
        let r = self.buffers.pop_front(kind);
        proof {
            let ids = self.queue_ids(kind);
            let id = ids[0];
            assert(ids.drop_first() =~= ids.remove(0));
            to_multiset_remove(ids, 0);
            assert(ids.contains(id));
            to_multiset_build(self.emitted@, id);
            match kind {
                StreamKind::Audio => {
                    self.audio_ids@ = ids.drop_first();
                },
                StreamKind::Video => {
                    self.video_ids@ = ids.drop_first();
                },
            }
            self.emitted@ = self.emitted@.push(id);
            assert(self.ledger() =~= old_ledger);
        }
        r.unwrap()
    }

    /// One synchronization step at time `now`: evicts stale packets from both
    /// buffers, then, if neither buffer is empty, removes and returns the head
    /// chosen by `emit_choice`.
    pub fn try_emit(&mut self, now: u64) -> (r: Option<Packet>)
        requires
            old(self).wf(),
        ensures
            final(self).wf(),
            final(self).bound() == old(self).bound(),
            final(self).admitted_count() == old(self).admitted_count(),
            ({
                let bound = old(self).bound();
                let a = after_eviction(old(self).audio(), now, bound);
                let v = after_eviction(old(self).video(), now, bound);
                let ka = stale_prefix_len(old(self).audio(), now, bound) as int;
                let kv = stale_prefix_len(old(self).video(), now, bound) as int;
                let a_ids = old(self).audio_ids().skip(ka);
                let v_ids = old(self).video_ids().skip(kv);
                &&& final(self).evicted_ids() == old(self).evicted_ids() + old(self).audio_ids().take(ka)
                    + old(self).video_ids().take(kv)
                &&& match emit_choice(a, v) {
                    None => {
                        &&& r is None
                        &&& final(self).audio() == a && final(self).audio_ids() == a_ids
                        &&& final(self).video() == v && final(self).video_ids() == v_ids
                        &&& final(self).emitted_ids() == old(self).emitted_ids()
                    },
                    Some(StreamKind::Audio) => {
                        &&& r == Some(a[0])
                        &&& final(self).audio() == a.drop_first()
                        &&& final(self).audio_ids() == a_ids.drop_first()
                        &&& final(self).video() == v && final(self).video_ids() == v_ids
                        &&& final(self).emitted_ids() == old(self).emitted_ids().push(a_ids[0])
                    },
                    Some(StreamKind::Video) => {
                        &&& r == Some(v[0])
                        &&& final(self).audio() == a && final(self).audio_ids() == a_ids
                        &&& final(self).video() == v.drop_first()
                        &&& final(self).video_ids() == v_ids.drop_first()
                        &&& final(self).emitted_ids() == old(self).emitted_ids().push(v_ids[0])
                    },
                }
            }),
    {
        self.evict_stale(now);
        let audio_head = self.buffers.front(StreamKind::Audio);
        let video_head = self.buffers.front(StreamKind::Video);
        match (audio_head, video_head) {
            (Some(a), Some(v)) => {
                if a.captured_at >= v.captured_at {
                    Some(self.take_head(StreamKind::Audio))
                } else {
                    Some(self.take_head(StreamKind::Video))
                }
            },
            _ => None,
        }
    }

    /// Synchronization steps at time `now` until one emits nothing; returns
    /// the emitted packets in emission order.
    pub fn drain_ready(&mut self, now: u64) -> (r: Vec<Packet>)
        requires
            old(self).wf(),
        ensures
            final(self).wf(),
            final(self).bound() == old(self).bound(),
            final(self).admitted_count() == old(self).admitted_count(),
            ({
                let outcome = drain_outcome(old(self).audio(), old(self).video(), now, old(self).bound());
                &&& r@ == outcome.0
                &&& final(self).audio() == outcome.1
                &&& final(self).video() == outcome.2
            }),
            final(self).emitted_ids().len() == old(self).emitted_ids().len() + r@.len(),
            final(self).emitted_ids().take(old(self).emitted_ids().len() as int) == old(self).emitted_ids(),
    {
        let ghost start_audio = self.audio();
        let ghost start_video = self.video();
        let ghost start_emitted = self.emitted_ids();
        let bound = self.staleness_bound;
        let mut out: Vec<Packet> = Vec::new();
        loop
            invariant
                self.wf(),
                self.bound() == bound,
                self.admitted_count() == old(self).admitted_count(),
                bound == old(self).bound(),
                start_audio == old(self).audio(),
                start_video == old(self).video(),
                start_emitted == old(self).emitted_ids(),
                ({
                    let whole = drain_outcome(start_audio, start_video, now, bound);
                    let rest = drain_outcome(self.audio(), self.video(), now, bound);
                    &&& whole.0 == out@ + rest.0
                    &&& whole.1 == rest.1
                    &&& whole.2 == rest.2
                }),
                self.emitted_ids().len() == start_emitted.len() + out@.len(),
                self.emitted_ids().take(start_emitted.len() as int) == start_emitted,
            ensures
                ({
                    let whole = drain_outcome(start_audio, start_video, now, bound);
                    &&& whole.0 == out@
                    &&& whole.1 == self.audio()
                    &&& whole.2 == self.video()
                }),
                self.wf(),
                self.bound() == bound,
                self.admitted_count() == old(self).admitted_count(),
                self.emitted_ids().len() == start_emitted.len() + out@.len(),
                self.emitted_ids().take(start_emitted.len() as int) == start_emitted,
            decreases self.audio().len() + self.video().len(),
        {
            let ghost cur_audio = self.audio();
            let ghost cur_video = self.video();
            let ghost cur_emitted = self.emitted_ids();
            proof {
                lemma_stale_prefix(cur_audio, now, bound);
                lemma_stale_prefix(cur_video, now, bound);
            }
            match self.try_emit(now) {
                Some(p) => {
                    proof {
                        assert(out@.push(p) + drain_outcome(self.audio(), self.video(), now, bound).0
                            =~= out@ + drain_outcome(cur_audio, cur_video, now, bound).0);
                        assert(self.emitted_ids().take(start_emitted.len() as int)
                            =~= cur_emitted.take(start_emitted.len() as int));
                    }
                    out.push(p);
                },
                None => {
                    proof {
                        assert(out@ + drain_outcome(cur_audio, cur_video, now, bound).0 =~= out@);
                    }
                    break;
                },
            }
        }
        out
    }
}

} // verus!
