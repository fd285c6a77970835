//! The unit of media data and the errors of submission.
use vstd::prelude::*;

verus! {

/// Which of the two streams a packet belongs to.
#[derive(Clone, Copy, Debug, PartialEq, Eq, Structural)]
pub enum StreamKind {
    Audio,
    Video,
}

/// The wire tag of an audio packet.
pub const AUDIO_TAG: u8 = 1;

/// The wire tag of a video packet.
pub const VIDEO_TAG: u8 = 0;

/// What a producer can be told when it hands a packet in.
#[derive(Clone, Copy, Debug, PartialEq, Eq, Structural)]
pub enum IngestError {
    /// The consumer side has shut down.
    Closed,
    /// The packet names no known stream.
    InvalidKind,
}

/// The stream that a wire tag names, if any.
pub open spec fn kind_of_tag(tag: u8) -> Option<StreamKind> {
    if tag == AUDIO_TAG {
        Some(StreamKind::Audio)
    } else if tag == VIDEO_TAG {
        Some(StreamKind::Video)
    } else {
        None
    }
}

impl StreamKind {
    /// Decodes a wire tag; an unknown tag is rejected with `InvalidKind`.
    pub fn from_tag(tag: u8) -> (r: Result<StreamKind, IngestError>)
        ensures
            r == (match kind_of_tag(tag) {
                Some(k) => Ok(k),
                None => Err(IngestError::InvalidKind),
            }),
    {
        if tag == AUDIO_TAG {
            Ok(StreamKind::Audio)
        } else if tag == VIDEO_TAG {
            Ok(StreamKind::Video)
        } else {
            Err(IngestError::InvalidKind)
        }
    }

    /// The wire tag of this stream.
    pub fn tag(&self) -> (r: u8)
        ensures
            kind_of_tag(r) == Some(*self),
    {
        match self {
            StreamKind::Audio => AUDIO_TAG,
            StreamKind::Video => VIDEO_TAG,
        }
    }
}

/// A media packet: a capture timestamp on the shared monotonic clock (in
/// milliseconds), the stream it belongs to, and an opaque payload.
#[derive(Clone, Debug, PartialEq, Eq)]
pub struct Packet {
    pub captured_at: u64,
    pub kind: StreamKind,
    pub payload: Vec<u8>,
}

impl Packet {
    pub fn new(kind: StreamKind, captured_at: u64, payload: Vec<u8>) -> (r: Packet)
        ensures
            r.kind == kind,
            r.captured_at == captured_at,
            r.payload == payload,
    {
        Packet { captured_at, kind, payload }
    }

    /// Builds a packet from a raw tag, as a producer submits it.
    pub fn from_tagged(tag: u8, captured_at: u64, payload: Vec<u8>) -> (r: Result<Packet, IngestError>)
        ensures
            match kind_of_tag(tag) {
                Some(k) => r == Ok::<Packet, IngestError>(
                    Packet { captured_at, kind: k, payload },
                ),
                None => r == Err::<Packet, IngestError>(IngestError::InvalidKind),
            },
    {
        let kind = StreamKind::from_tag(tag)?;
        Ok(Packet { captured_at, kind, payload })
    }
}

} // verus!
