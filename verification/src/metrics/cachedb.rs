//! Scoped measurements of cache accesses: a hit is counted when its
//! scope completes, a miss also measures the penalty it paid. The
//! completion call is explicit, so it happens on every exit path
//! without leaning on destructor timing.

use vstd::prelude::*;
use crate::metrics::types::{
    spec_us_bucket, CacheDbRecord, Function, NS_PENALTY_STEP_SIZE, US_PENALTY_STEP_SIZE,
};
use crate::time_utils::now_ticks;

verus! {

/// Count one cache hit through `function`.
pub fn hit_record(recorder: &mut CacheDbRecord, function: Function)
    requires
        old(recorder).wf(),
        old(recorder).hits.function@[function.spec_index()] < u64::MAX,
    ensures
        final(recorder).wf(),
        final(recorder).hits.function@ == old(recorder).hits.function@.update(
            function.spec_index(),
            (old(recorder).hits.function@[function.spec_index()] + 1) as u64,
        ),
        final(recorder).misses == old(recorder).misses,
        final(recorder).penalty == old(recorder).penalty,
{
    recorder.hit(function);
}

/// Count one cache miss through `function` that cost `cycles` of
/// penalty: the miss counter goes up by one, the per-function penalty
/// total accumulates the cycles (saturating), and the penalty
/// distribution counts the event in the bucket the cycles fall into.
pub fn miss_record(recorder: &mut CacheDbRecord, function: Function, cycles: u64)
    requires
        old(recorder).wf(),
        old(recorder).misses.function@[function.spec_index()] < u64::MAX,
        forall|i: int| 0 <= i < US_PENALTY_STEP_SIZE
            ==> #[trigger] old(recorder).penalty.us_percentile@[i] < u64::MAX,
        forall|i: int| 0 <= i < NS_PENALTY_STEP_SIZE
            ==> #[trigger] old(recorder).penalty.ns_percentile@[i] < u64::MAX,
    ensures
        final(recorder).wf(),
        final(recorder).hits == old(recorder).hits,
        final(recorder).misses.function@ == old(recorder).misses.function@.update(
            function.spec_index(),
            (old(recorder).misses.function@[function.spec_index()] + 1) as u64,
        ),
        ({
            let idx = function.spec_index();
            let a = old(recorder).penalty.time.function@[idx];
            let v: u64 = if a + cycles <= u64::MAX { (a + cycles) as u64 } else { u64::MAX };
            final(recorder).penalty.time.function@
                == old(recorder).penalty.time.function@.update(idx, v)
        }),
        ({
            let b = spec_us_bucket(cycles);
            final(recorder).penalty.us_percentile@ == old(recorder).penalty.us_percentile@.update(
                b, (old(recorder).penalty.us_percentile@[b] + 1) as u64)
        }),
        cycles < 4000 ==> final(recorder).penalty.ns_percentile@
            == old(recorder).penalty.ns_percentile@.update(
                cycles as int / 100,
                (old(recorder).penalty.ns_percentile@[cycles as int / 100] + 1) as u64,
            ),
        cycles >= 4000 ==> final(recorder).penalty.ns_percentile@
            == old(recorder).penalty.ns_percentile@,
{
    recorder.miss(function, cycles);
}

/// Take the cache record out of the recorder, leaving it empty.
pub fn get_record(recorder: &mut CacheDbRecord) -> (r: CacheDbRecord)
    requires
        old(recorder).wf(),
    ensures
        r == *old(recorder),
        final(recorder).wf(),
        final(recorder).is_initial(),
{
    let mut out = CacheDbRecord::new();
    core::mem::swap(&mut out, recorder);
    out
}

/// A cache hit in flight: created on entry, completed on every exit
/// path by [`HitRecord::record_into`].
pub struct HitRecord {
    /// The function the access went through.
    pub function: Function,
}

impl HitRecord {
    /// Open the scope of a hit.
    pub fn new(function: Function) -> (r: HitRecord)
        ensures
            r.function == function,
    {
        HitRecord { function }
    }

    /// Complete the scope: count the hit.
    pub fn record_into(self, recorder: &mut CacheDbRecord)
        requires
            old(recorder).wf(),
            old(recorder).hits.function@[self.function.spec_index()] < u64::MAX,
        ensures
            final(recorder).wf(),
            final(recorder).hits.function@ == old(recorder).hits.function@.update(
                self.function.spec_index(),
                (old(recorder).hits.function@[self.function.spec_index()] + 1) as u64,
            ),
            final(recorder).misses == old(recorder).misses,
            final(recorder).penalty == old(recorder).penalty,
    {
        hit_record(recorder, self.function);
    }
}

/// A cache miss in flight: remembers when it began, and on completion
/// measures the penalty as the time since then.
pub struct MissRecord {
    /// The function the access went through.
    pub function: Function,
    /// The clock reading at the start of the miss.
    pub start_time: u64,
}

impl MissRecord {
    /// Open the scope of a miss at the current clock reading.
    pub fn new(function: Function) -> (r: MissRecord)
        ensures
            r.function == function,
    {
        MissRecord { function, start_time: now_ticks() }
    }

    /// Complete the scope: count the miss with the penalty measured
    /// since it began.
    pub fn record_into(self, recorder: &mut CacheDbRecord)
        requires
            old(recorder).wf(),
            old(recorder).misses.function@[self.function.spec_index()] < u64::MAX,
            forall|i: int| 0 <= i < US_PENALTY_STEP_SIZE
                ==> #[trigger] old(recorder).penalty.us_percentile@[i] < u64::MAX,
            forall|i: int| 0 <= i < NS_PENALTY_STEP_SIZE
                ==> #[trigger] old(recorder).penalty.ns_percentile@[i] < u64::MAX,
        ensures
            final(recorder).wf(),
            final(recorder).hits == old(recorder).hits,
            final(recorder).misses.function@ == old(recorder).misses.function@.update(
                self.function.spec_index(),
                (old(recorder).misses.function@[self.function.spec_index()] + 1) as u64,
            ),
    {
        let now = now_ticks();
        let cycles = if now >= self.start_time {
            now - self.start_time
        } else {
            0
        };
        miss_record(recorder, self.function, cycles);
    }
}

} // verus!
