//! A span of time in whole seconds and nanoseconds, as `std::time::Duration` holds it.

use vstd::prelude::*;

verus! {

/// A span of time: `secs` seconds and `nanos` nanoseconds, `nanos` below one second.
#[derive(Debug, Clone, Copy, PartialEq, Eq, Structural)]
pub struct Duration {
    pub secs: u64,
    pub nanos: u32,
}

impl Duration {
    pub open spec fn wf(&self) -> bool {
        self.nanos < 1_000_000_000
    }

    /// The span in milliseconds.
    pub open spec fn millis(&self) -> nat {
        (self.secs * 1000 + self.nanos / 1_000_000) as nat
    }

    pub fn from_secs(secs: u64) -> (d: Self)
        ensures
            d.secs == secs,
            d.nanos == 0,
            d.wf(),
    {
        Duration { secs, nanos: 0 }
    }

    /// `secs` seconds and `nanos` nanoseconds; whole seconds in `nanos` carry over.
    pub fn new(secs: u64, nanos: u32) -> (d: Self)
        requires
            secs + nanos / 1_000_000_000 <= u64::MAX,
        ensures
            d.wf(),
            d.secs == secs + nanos / 1_000_000_000,
            d.nanos == nanos % 1_000_000_000,
    {
        Duration { secs: secs + (nanos / 1_000_000_000) as u64, nanos: nanos % 1_000_000_000 }
    }

    pub fn as_secs(&self) -> (s: u64)
        ensures
            s == self.secs,
    {
        self.secs
    }

    /// Whole milliseconds of the span, as `Duration::as_millis` gives them.
    pub fn as_millis(&self) -> (m: u128)
        ensures
            m == self.millis(),
    {
        self.secs as u128 * 1000 + (self.nanos / 1_000_000) as u128
    }
}

} // verus!
