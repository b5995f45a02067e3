//! What a finished backup process reports about itself.

use crate::duration::Duration;
use vstd::prelude::*;

verus! {

/// Wall time, CPU time and peak memory of a finished process.
pub struct ProcessMetrics {
    pub duration: Duration,
    pub user_cpu: Option<Duration>,
    pub system_cpu: Option<Duration>,
    pub peak_memory_kib: Option<u64>,
}

/// The span that a `timeval` (seconds and microseconds) holds; nothing for a
/// negative one. The microseconds are read as a `u32` and scaled to
/// nanoseconds without passing `u32::MAX`.
pub open spec fn timeval_span(sec: i64, usec: i64) -> Option<(nat, nat)> {
    if sec < 0 || usec < 0 {
        None
    } else {
        let micros = (usec as int) % 0x1_0000_0000;
        let nanos = if micros * 1000 <= u32::MAX {
            micros * 1000
        } else {
            u32::MAX as int
        };
        Some(((sec + nanos / 1_000_000_000) as nat, (nanos % 1_000_000_000) as nat))
    }
}

pub fn timeval_to_duration(sec: i64, usec: i64) -> (r: Option<Duration>)
    ensures
        match (r, timeval_span(sec, usec)) {
            (Some(d), Some((s, n))) => d.secs == s && d.nanos == n && d.wf(),
            (None, None) => true,
            _ => false,
        },
{
    if sec < 0 || usec < 0 {
        return None;
    }
    let micros = (usec % 0x1_0000_0000) as u32;
    let nanos: u32 = if micros as u64 * 1000 <= u32::MAX as u64 {
        micros * 1000
    } else {
        u32::MAX
    };
    Some(Duration::new(sec as u64, nanos))
}

} // verus!
