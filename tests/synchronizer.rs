use avsync::buffer::{evict_stale, StreamBuffer};
use avsync::config::SyncConfig;
use avsync::dual::DualStreamBuffer;
use avsync::packet::{IngestError, Packet, StreamKind};
use avsync::sync::Synchronizer;

fn audio(t: u64) -> Packet {
    Packet::new(StreamKind::Audio, t, vec![1, t as u8])
}

fn video(t: u64) -> Packet {
    Packet::new(StreamKind::Video, t, vec![0, t as u8])
}

#[test]
fn tie_goes_to_audio() {
    let mut s = Synchronizer::new(100);
    s.admit_packet(audio(0));
    s.admit_packet(video(0));
    assert_eq!(s.try_emit(0), Some(audio(0)));
    assert_eq!(s.len(StreamKind::Audio), 0);
    assert_eq!(s.len(StreamKind::Video), 1);
    assert_eq!(s.front(StreamKind::Video), Some(&video(0)));
}

#[test]
fn lone_fresh_audio_is_kept() {
    let mut s = Synchronizer::new(100);
    s.admit_packet(audio(50));
    assert_eq!(s.try_emit(60), None);
    assert_eq!(s.len(StreamKind::Audio), 1);
    assert_eq!(s.front(StreamKind::Audio), Some(&audio(50)));
}

#[test]
fn lone_stale_audio_is_evicted() {
    let mut s = Synchronizer::new(100);
    s.admit_packet(audio(0));
    assert_eq!(s.try_emit(150), None);
    assert_eq!(s.len(StreamKind::Audio), 0);
    assert_eq!(s.front(StreamKind::Audio), None);
}

#[test]
fn full_ingest_queue_makes_producer_wait() {
    let config = SyncConfig::default();
    assert_eq!(config.channel_capacity, 100);
    let rt = tokio::runtime::Builder::new_current_thread().enable_time().build().unwrap();
    rt.block_on(async move {
        let (tx, mut rx) = tokio::sync::mpsc::channel::<Packet>(config.channel_capacity);
        for t in 0..100u64 {
            assert!(tx.try_send(audio(t)).is_ok());
        }
        let waited = tokio::time::timeout(std::time::Duration::from_millis(50), tx.send(audio(100))).await;
        assert!(waited.is_err());
        assert_eq!(rx.recv().await, Some(audio(0)));
        let sent = tokio::time::timeout(std::time::Duration::from_millis(50), tx.send(audio(100))).await;
        assert!(matches!(sent, Ok(Ok(()))));
    });
}

#[test]
fn empty_video_blocks_emission() {
    let mut s = Synchronizer::new(100);
    for t in 0..5u64 {
        s.admit_packet(audio(t));
    }
    assert_eq!(s.try_emit(10), None);
    assert_eq!(s.len(StreamKind::Audio), 5);
}

#[test]
fn empty_audio_blocks_emission() {
    let mut s = Synchronizer::new(100);
    s.admit_packet(video(3));
    s.admit_packet(video(4));
    assert_eq!(s.try_emit(10), None);
    assert_eq!(s.len(StreamKind::Video), 2);
}

#[test]
fn newer_head_is_emitted_first() {
    let mut s = Synchronizer::new(100);
    s.admit_packet(audio(10));
    s.admit_packet(video(20));
    assert_eq!(s.try_emit(20), Some(video(20)));
    assert_eq!(s.try_emit(20), None);
    s.admit_packet(video(5));
    assert_eq!(s.try_emit(20), Some(audio(10)));
}

#[test]
fn each_packet_is_emitted_once() {
    let mut s = Synchronizer::new(1000);
    s.admit_packet(audio(1));
    s.admit_packet(audio(2));
    s.admit_packet(video(1));
    s.admit_packet(video(2));
    let mut out = Vec::new();
    while let Some(p) = s.try_emit(2) {
        out.push(p);
    }
    assert_eq!(out, vec![audio(1), audio(2)]);
    assert_eq!(s.len(StreamKind::Video), 2);
    assert_eq!(s.try_emit(2), None);
}

#[test]
fn evicted_packet_is_never_emitted() {
    let mut s = Synchronizer::new(100);
    s.admit_packet(audio(0));
    s.admit_packet(audio(200));
    s.admit_packet(video(150));
    assert_eq!(s.try_emit(250), Some(audio(200)));
    assert_eq!(s.try_emit(250), None);
    assert_eq!(s.len(StreamKind::Audio), 0);
    assert_eq!(s.len(StreamKind::Video), 1);
}

#[test]
fn eviction_stops_at_first_fresh_packet() {
    let mut b = StreamBuffer::new();
    for t in [10u64, 20, 30, 40] {
        b.push_back(audio(t));
    }
    evict_stale(&mut b, 130, 100);
    assert_eq!(b.len(), 2);
    assert_eq!(b.front(), Some(&audio(30)));
}

#[test]
fn eviction_keeps_packet_exactly_at_bound() {
    let mut b = StreamBuffer::new();
    b.push_back(video(30));
    evict_stale(&mut b, 130, 100);
    assert_eq!(b.len(), 1);
    evict_stale(&mut b, 131, 100);
    assert!(b.is_empty());
}

#[test]
fn eviction_before_bound_has_elapsed_keeps_all() {
    let mut b = StreamBuffer::new();
    b.push_back(audio(0));
    evict_stale(&mut b, 50, 100);
    assert_eq!(b.len(), 1);
}

#[test]
fn eviction_of_empty_buffer() {
    let mut b = StreamBuffer::new();
    evict_stale(&mut b, u64::MAX, 0);
    assert!(b.is_empty());
    assert_eq!(b.pop_front(), None);
}

#[test]
fn dual_buffer_routes_by_kind() {
    let mut d = DualStreamBuffer::new();
    d.admit_packet(audio(1));
    d.admit_packet(video(2));
    d.admit_packet(audio(3));
    assert_eq!(d.len(StreamKind::Audio), 2);
    assert_eq!(d.len(StreamKind::Video), 1);
    assert_eq!(d.pop_front(StreamKind::Audio), Some(audio(1)));
    assert_eq!(d.front(StreamKind::Audio), Some(&audio(3)));
    assert_eq!(d.pop_front(StreamKind::Video), Some(video(2)));
    assert_eq!(d.pop_front(StreamKind::Video), None);
}

#[test]
fn dual_buffer_evicts_both_streams() {
    let mut d = DualStreamBuffer::new();
    d.admit_packet(audio(1));
    d.admit_packet(audio(90));
    d.admit_packet(video(2));
    d.evict_stale(100, 50);
    assert_eq!(d.len(StreamKind::Audio), 1);
    assert_eq!(d.len(StreamKind::Video), 0);
}

#[test]
fn tags_decode_to_kinds() {
    assert_eq!(StreamKind::from_tag(1), Ok(StreamKind::Audio));
    assert_eq!(StreamKind::from_tag(0), Ok(StreamKind::Video));
    assert_eq!(StreamKind::from_tag(7), Err(IngestError::InvalidKind));
    assert_eq!(StreamKind::Audio.tag(), 1);
    assert_eq!(StreamKind::Video.tag(), 0);
}

#[test]
fn tagged_packet_with_unknown_kind_is_rejected() {
    assert_eq!(Packet::from_tagged(9, 5, vec![9]), Err(IngestError::InvalidKind));
    assert_eq!(Packet::from_tagged(1, 5, vec![1]), Ok(Packet::new(StreamKind::Audio, 5, vec![1])));
}

#[test]
fn default_configuration() {
    let c = SyncConfig::default();
    assert_eq!(c.channel_capacity, 100);
    assert_eq!(c.staleness_bound_ms, 100);
    assert_eq!(c.tick_interval_ms, 10);
    let s = c.synchronizer();
    assert_eq!(s.staleness_bound(), 100);
}

#[test]
fn drain_emits_until_a_buffer_runs_dry() {
    let mut s = Synchronizer::new(100);
    s.admit_packet(audio(10));
    s.admit_packet(audio(30));
    s.admit_packet(video(20));
    s.admit_packet(video(25));
    let out = s.drain_ready(40);
    assert_eq!(out, vec![video(20), video(25)]);
    assert_eq!(s.len(StreamKind::Audio), 2);
    assert_eq!(s.len(StreamKind::Video), 0);
}

#[test]
fn drain_evicts_before_each_step() {
    let mut s = Synchronizer::new(100);
    s.admit_packet(audio(0));
    s.admit_packet(audio(500));
    s.admit_packet(video(450));
    s.admit_packet(video(460));
    let out = s.drain_ready(500);
    assert_eq!(out, vec![audio(500)]);
    assert_eq!(s.len(StreamKind::Audio), 0);
    assert_eq!(s.len(StreamKind::Video), 2);
}

#[test]
fn drain_of_empty_synchronizer() {
    let mut s = Synchronizer::new(0);
    assert!(s.drain_ready(0).is_empty());
}
