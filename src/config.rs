//! Recognized configuration of the synchronizer and its ingest queue.
use vstd::prelude::*;

use crate::sync::Synchronizer;

verus! {

/// Default number of packets the ingest queue holds before producers wait.
pub const DEFAULT_CHANNEL_CAPACITY: usize = 100;

/// Default staleness bound, in milliseconds.
pub const DEFAULT_STALENESS_BOUND_MS: u64 = 100;

/// Default flush cadence when no packet arrives, in milliseconds.
pub const DEFAULT_TICK_INTERVAL_MS: u64 = 10;

/// Capacity of the ingest queue, staleness bound and periodic flush cadence.
#[derive(Clone, Copy, Debug, PartialEq, Eq)]
pub struct SyncConfig {
    pub channel_capacity: usize,
    pub staleness_bound_ms: u64,
    pub tick_interval_ms: u64,
}

impl Default for SyncConfig {
    fn default() -> (r: SyncConfig)
        ensures
            r.channel_capacity == DEFAULT_CHANNEL_CAPACITY,
            r.staleness_bound_ms == DEFAULT_STALENESS_BOUND_MS,
            r.tick_interval_ms == DEFAULT_TICK_INTERVAL_MS,
    {
        SyncConfig {
            channel_capacity: DEFAULT_CHANNEL_CAPACITY,
            staleness_bound_ms: DEFAULT_STALENESS_BOUND_MS,
            tick_interval_ms: DEFAULT_TICK_INTERVAL_MS,
        }
    }
}

impl SyncConfig {
    /// An empty synchronizer with this configuration's staleness bound.
    pub fn synchronizer(&self) -> (r: Synchronizer)
        ensures
            r.wf(),
            r.bound() == self.staleness_bound_ms,
            r.audio() == Seq::<crate::packet::Packet>::empty(),
            r.video() == Seq::<crate::packet::Packet>::empty(),
            r.admitted_count() == 0,
    {
        Synchronizer::new(self.staleness_bound_ms)
    }
}

} // verus!
