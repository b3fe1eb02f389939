//! Time readings for the metrics recorders: an opaque, monotone-ish
//! tick source and spans between two readings.

use vstd::prelude::*;

verus! {

/// Relies on `minstant::Instant::now` and `Instant::as_unix_nanos`: one
/// reading of the process clock, converted to nanoseconds since the
/// UNIX epoch. Nothing is assumed about the value; every caller is
/// verified for every possible reading.
#[verifier::external_body]
pub(crate) fn now_ticks() -> u64 {
    minstant::Instant::now().as_unix_nanos(&minstant::Anchor::new())
}

/// A span between two clock readings, in ticks.
#[derive(Clone, Copy, Debug)]
pub struct SpanTimeInNs {
    /// The reading that opened the span.
    pub start: u64,
    /// The reading that closed it.
    pub end: u64,
}

impl SpanTimeInNs {
    /// Length of the span. The closing reading must not precede the
    /// opening one.
    pub fn to_cycles(&self) -> (r: u64)
        requires
            self.start <= self.end,
        ensures
            r == self.end - self.start,
    {
        self.end - self.start
    }
}

/// Captures a clock reading and measures spans from it.
#[derive(Clone, Copy, Debug)]
pub struct TimeRecorder {
    /// The most recent reading held by the recorder.
    pub now: u64,
}

impl TimeRecorder {
    /// A recorder anchored at the current clock reading.
    pub fn now() -> TimeRecorder {
        TimeRecorder { now: now_ticks() }
    }

    /// The span from the recorder's anchor to the current reading; the
    /// anchor stays where it was.
    pub fn elapsed(&mut self) -> (r: SpanTimeInNs)
        ensures
            r.start == old(self).now,
            *final(self) == *old(self),
    {
        SpanTimeInNs { start: self.now, end: now_ticks() }
    }

    /// The span from the recorder's anchor to the current reading,
    /// moving the anchor to that reading.
    pub fn record_next_time(&mut self) -> (r: SpanTimeInNs)
        ensures
            r.start == old(self).now,
            final(self).now == r.end,
    {
        let t = now_ticks();
        let span = SpanTimeInNs { start: self.now, end: t };
        self.now = t;
        span
    }
}

} // verus!
