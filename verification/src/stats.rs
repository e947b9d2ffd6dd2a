//! Per-guest, per-tick resource statistics.
//!
//! One record per guest, overwritten each tick and read by observability
//! surfaces; the core keeps no history.

use vstd::prelude::*;

verus! {

/// The resource sample taken after one guest step.
#[derive(Clone, Copy, PartialEq, Eq, Structural, Debug)]
pub struct AppDataPoint {
    /// Fuel consumed by the step: budget minus what remained.
    pub fuel: u64,
    /// Wall time the step took, in nanoseconds.
    pub frametime_ns: u64,
    /// The guest's linear memory size in bytes.
    pub mem_used: u64,
    /// Bytes dequeued from TCP sockets during the step.
    pub net_recv: u64,
    /// Bytes enqueued to TCP sockets during the step.
    pub net_sent: u64,
}

impl AppDataPoint {
    /// An all-zero sample.
    pub fn zero() -> (r: AppDataPoint)
        ensures
            r == (AppDataPoint {
                fuel: 0u64,
                frametime_ns: 0u64,
                mem_used: 0u64,
                net_recv: 0u64,
                net_sent: 0u64,
            }),
    {
        AppDataPoint { fuel: 0, frametime_ns: 0, mem_used: 0, net_recv: 0, net_sent: 0 }
    }
}

} // verus!
