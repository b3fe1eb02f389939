//! Record types for observing instruction execution and cache traffic.
//! Pure counters: an injected observer that never affects the engine.

use vstd::prelude::*;
use vstd::pervasive::VecAdditionalExecFns;

verus! {

/// Number of buckets in the sload duration ladder.
pub const STEP_LEN: usize = 4;

/// The upper bound of sload-ladder bucket `i` (the last bucket is
/// unbounded).
pub open spec fn spec_sload_step(i: int) -> u64 {
    if i == 0 {
        1
    } else if i == 1 {
        10
    } else if i == 2 {
        100
    } else {
        u64::MAX
    }
}

/// The ladder bucket a duration falls into.
pub open spec fn spec_sload_bucket(t: u64) -> int {
    if t < 1 {
        0
    } else if t < 10 {
        1
    } else if t < 100 {
        2
    } else {
        3
    }
}

/// Performance record of opcode executions: per opcode a counter, an
/// accumulated duration and an accumulated gas figure; a duration
/// ladder for the sload opcode; and the total run time.
pub struct OpcodeRecord {
    /// Indexed by opcode: (execution counter, accumulated time,
    /// accumulated gas).
    pub opcode_record: Vec<(u64, u64, i128)>,
    /// The sload duration ladder: (bucket bound, bucket counter).
    pub sload_opcode_record: Vec<(u64, u64)>,
    /// Total time of all opcodes.
    pub total_time: u64,
    /// Whether anything has been recorded into this value.
    pub is_updated: bool,
}

impl OpcodeRecord {
    /// Shape invariant: one slot per opcode, and the ladder carries its
    /// fixed bounds.
    pub open spec fn wf(&self) -> bool {
        &&& self.opcode_record@.len() == 256
        &&& self.sload_opcode_record@.len() == STEP_LEN
        &&& forall|i: int| 0 <= i < STEP_LEN
            ==> (#[trigger] self.sload_opcode_record@[i]).0 == spec_sload_step(i)
    }

    /// All counters at zero and nothing recorded.
    pub open spec fn is_initial(&self) -> bool {
        &&& forall|i: int| 0 <= i < 256 ==> #[trigger] self.opcode_record@[i] == (0u64, 0u64, 0i128)
        &&& forall|i: int| 0 <= i < STEP_LEN
            ==> (#[trigger] self.sload_opcode_record@[i]).1 == 0
        &&& self.total_time == 0
        &&& !self.is_updated
    }

    /// Merge `other` into `self` and reset what was taken. When `self`
    /// holds nothing yet the per-opcode tables are exchanged wholesale;
    /// otherwise they are summed slot by slot. A record that holds
    /// nothing contributes nothing.
    pub fn update(&mut self, other: &mut OpcodeRecord)
        requires
            old(self).wf(),
            old(other).wf(),
            old(other).is_updated ==> old(self).total_time + old(other).total_time <= u64::MAX,
            (old(other).is_updated && old(self).is_updated) ==> forall|i: int|
                0 <= i < 256 ==> {
                    let a = #[trigger] old(self).opcode_record@[i];
                    let b = old(other).opcode_record@[i];
                    &&& a.0 + b.0 <= u64::MAX
                    &&& a.1 + b.1 <= u64::MAX
                    &&& i128::MIN <= a.2 + b.2 <= i128::MAX
                },
            (old(other).is_updated && old(self).is_updated) ==> forall|i: int|
                0 <= i < STEP_LEN
                    ==> (#[trigger] old(self).sload_opcode_record@[i]).1
                        + old(other).sload_opcode_record@[i].1 <= u64::MAX,
        ensures
            final(self).wf(),
            final(other).wf(),
            !old(other).is_updated ==> *final(self) == *old(self) && *final(other) == *old(other),
            (old(other).is_updated && !old(self).is_updated) ==> {
                &&& final(self).opcode_record@ == old(other).opcode_record@
                &&& final(other).opcode_record@ == old(self).opcode_record@
                &&& final(self).sload_opcode_record@ == old(other).sload_opcode_record@
                &&& final(other).sload_opcode_record@ == old(self).sload_opcode_record@
                &&& final(self).total_time == old(self).total_time + old(other).total_time
                &&& final(self).is_updated
                &&& final(other).total_time == old(other).total_time
                &&& final(other).is_updated == old(other).is_updated
            },
            (old(other).is_updated && old(self).is_updated) ==> {
                &&& *final(other) == *old(other)
                &&& final(self).total_time == old(self).total_time + old(other).total_time
                &&& final(self).is_updated
                &&& forall|i: int| 0 <= i < 256 ==> {
                    let a = old(self).opcode_record@[i];
                    let b = old(other).opcode_record@[i];
                    #[trigger] final(self).opcode_record@[i]
                        == ((a.0 + b.0) as u64, (a.1 + b.1) as u64, (a.2 + b.2) as i128)
                }
                &&& forall|i: int| 0 <= i < STEP_LEN ==> {
                    let a = old(self).sload_opcode_record@[i];
                    let b = old(other).sload_opcode_record@[i];
                    #[trigger] final(self).sload_opcode_record@[i]
                        == (a.0, (a.1 + b.1) as u64)
                }
            },
    {
        if !other.is_updated {
            return;
        }

        self.total_time = self.total_time + other.total_time;

        if !self.is_updated {
            core::mem::swap(&mut self.opcode_record, &mut other.opcode_record);
            core::mem::swap(&mut self.sload_opcode_record, &mut other.sload_opcode_record);
            self.is_updated = true;
            return;
        }

        let mut i: usize = 0;
        while i < 256
            invariant
                self.opcode_record@.len() == 256,
                other.opcode_record@.len() == 256,
                self.sload_opcode_record@ == old(self).sload_opcode_record@,
                self.total_time == old(self).total_time + old(other).total_time,
                self.is_updated,
                other.sload_opcode_record@ == old(other).sload_opcode_record@,
                other.total_time == old(other).total_time,
                other.is_updated == old(other).is_updated,
                i <= 256,
                forall|j: int| 0 <= j < 256 ==> {
                    let a = #[trigger] old(self).opcode_record@[j];
                    let b = old(other).opcode_record@[j];
                    &&& a.0 + b.0 <= u64::MAX
                    &&& a.1 + b.1 <= u64::MAX
                    &&& i128::MIN <= a.2 + b.2 <= i128::MAX
                },
                other.opcode_record@ == old(other).opcode_record@,
                forall|j: int| 0 <= j < i ==> {
                    let a = old(self).opcode_record@[j];
                    let b = old(other).opcode_record@[j];
                    #[trigger] self.opcode_record@[j]
                        == ((a.0 + b.0) as u64, (a.1 + b.1) as u64, (a.2 + b.2) as i128)
                },
                forall|j: int| i <= j < 256
                    ==> #[trigger] self.opcode_record@[j] == old(self).opcode_record@[j],
            decreases 256 - i,
        {
            let a = self.opcode_record[i];
            let b = other.opcode_record[i];
            self.opcode_record.set(i, (a.0 + b.0, a.1 + b.1, a.2 + b.2));
            i = i + 1;
        }

        let ghost summed = self.opcode_record@;
        let mut k: usize = 0;
        while k < STEP_LEN
            invariant
                self.opcode_record@ == summed,
                self.sload_opcode_record@.len() == STEP_LEN,
                other.sload_opcode_record@.len() == STEP_LEN,
                self.total_time == old(self).total_time + old(other).total_time,
                self.is_updated,
                other.opcode_record@ == old(other).opcode_record@,
                other.total_time == old(other).total_time,
                other.is_updated == old(other).is_updated,
                k <= STEP_LEN,
                forall|j: int| 0 <= j < STEP_LEN
                    ==> (#[trigger] old(self).sload_opcode_record@[j]).1
                        + old(other).sload_opcode_record@[j].1 <= u64::MAX,
                other.sload_opcode_record@ == old(other).sload_opcode_record@,
                forall|j: int| 0 <= j < k ==> {
                    let a = old(self).sload_opcode_record@[j];
                    let b = old(other).sload_opcode_record@[j];
                    #[trigger] self.sload_opcode_record@[j] == (a.0, (a.1 + b.1) as u64)
                },
                forall|j: int| k <= j < STEP_LEN
                    ==> #[trigger] self.sload_opcode_record@[j]
                        == old(self).sload_opcode_record@[j],
            decreases STEP_LEN - k,
        {
            let a = self.sload_opcode_record[k];
            let b = other.sload_opcode_record[k];
            self.sload_opcode_record.set(k, (a.0, a.1 + b.1));
            k = k + 1;
        }
    }

    /// Count one sload of duration `op_time` into the bucket of the
    /// ladder it falls into.
    pub fn add_sload_opcode_record(&mut self, op_time: u64)
        requires
            old(self).wf(),
            old(self).sload_opcode_record@[spec_sload_bucket(op_time)].1 < u64::MAX,
        ensures
            final(self).wf(),
            ({
                let b = spec_sload_bucket(op_time);
                let a = old(self).sload_opcode_record@[b];
                final(self).sload_opcode_record@
                    == old(self).sload_opcode_record@.update(b, (a.0, (a.1 + 1) as u64))
            }),
            final(self).opcode_record@ == old(self).opcode_record@,
            final(self).total_time == old(self).total_time,
            final(self).is_updated == old(self).is_updated,
    {
        let idx: usize = if op_time < 1 {
            0
        } else if op_time < 10 {
            1
        } else if op_time < 100 {
            2
        } else {
            3
        };
        let a = self.sload_opcode_record[idx];
        self.sload_opcode_record.set(idx, (a.0, a.1 + 1));
    }

    /// Whether anything has been recorded.
    pub fn not_empty(&self) -> (r: bool)
        ensures
            r == self.is_updated,
    {
        self.is_updated
    }
}

impl Default for OpcodeRecord {
    /// The empty record, with the ladder bounds in place.
    fn default() -> (r: Self)
        ensures
            r.wf(),
            r.is_initial(),
    {
        let mut opcode_record: Vec<(u64, u64, i128)> = Vec::with_capacity(256);
        let mut i: usize = 0;
        while i < 256
            invariant
                opcode_record@.len() == i,
                i <= 256,
                forall|j: int| 0 <= j < i ==> #[trigger] opcode_record@[j] == (0u64, 0u64, 0i128),
            decreases 256 - i,
        {
            opcode_record.push((0u64, 0u64, 0i128));
            i = i + 1;
        }
        let mut sload_opcode_record: Vec<(u64, u64)> = Vec::with_capacity(STEP_LEN);
        sload_opcode_record.push((1u64, 0u64));
        sload_opcode_record.push((10u64, 0u64));
        sload_opcode_record.push((100u64, 0u64));
        sload_opcode_record.push((u64::MAX, 0u64));
        OpcodeRecord { opcode_record, sload_opcode_record, total_time: 0, is_updated: false }
    }
}

/// The function through which a cache access went.
#[derive(Clone, Copy, Debug, PartialEq, Eq, Structural)]
pub enum Function {
    Basic,
    CodeByHash,
    Storage,
    BlockHash,
    LoadAccount,
}

impl Function {
    /// Position of this function in an [`AccessStats`] table.
    pub open spec fn spec_index(self) -> int {
        match self {
            Function::Basic => 0,
            Function::CodeByHash => 1,
            Function::Storage => 2,
            Function::BlockHash => 3,
            Function::LoadAccount => 4,
        }
    }

    /// Executable counterpart of [`Function::spec_index`].
    pub fn index(self) -> (r: usize)
        ensures
            r == self.spec_index(),
    {
        match self {
            Function::Basic => 0,
            Function::CodeByHash => 1,
            Function::Storage => 2,
            Function::BlockHash => 3,
            Function::LoadAccount => 4,
        }
    }
}

/// Per-function access counters: one slot for each [`Function`], in
/// declaration order.
pub struct AccessStats {
    /// The counter table.
    pub function: Vec<u64>,
}

impl AccessStats {
    /// One counter per function.
    pub open spec fn wf(&self) -> bool {
        self.function@.len() == 5
    }

    /// All counters at zero.
    pub open spec fn is_zero(&self) -> bool {
        forall|i: int| 0 <= i < 5 ==> #[trigger] self.function@[i] == 0
    }

    /// The empty table.
    pub fn new() -> (r: AccessStats)
        ensures
            r.wf(),
            r.is_zero(),
    {
        let mut function: Vec<u64> = Vec::with_capacity(5);
        let mut i: usize = 0;
        while i < 5
            invariant
                function@.len() == i,
                i <= 5,
                forall|j: int| 0 <= j < i ==> #[trigger] function@[j] == 0,
            decreases 5 - i,
        {
            function.push(0u64);
            i = i + 1;
        }
        AccessStats { function }
    }

    /// An exact copy.
    pub fn duplicate(&self) -> (r: AccessStats)
        requires
            self.wf(),
        ensures
            r.wf(),
            r.function@ == self.function@,
    {
        let f = self.function.clone();
        proof {
            assert(f@ =~= self.function@);
        }
        AccessStats { function: f }
    }

    /// Add the counters of `other` slot by slot.
    pub fn update(&mut self, other: &AccessStats)
        requires
            old(self).wf(),
            other.wf(),
            forall|i: int| 0 <= i < 5
                ==> (#[trigger] old(self).function@[i]) + other.function@[i] <= u64::MAX,
        ensures
            final(self).wf(),
            forall|i: int| 0 <= i < 5 ==> #[trigger] final(self).function@[i]
                == old(self).function@[i] + other.function@[i],
    {
        let mut i: usize = 0;
        while i < 5
            invariant
                self.function@.len() == 5,
                other.wf(),
                i <= 5,
                forall|j: int| 0 <= j < 5
                    ==> (#[trigger] old(self).function@[j]) + other.function@[j] <= u64::MAX,
                forall|j: int| 0 <= j < i ==> #[trigger] self.function@[j]
                    == old(self).function@[j] + other.function@[j],
                forall|j: int| i <= j < 5
                    ==> #[trigger] self.function@[j] == old(self).function@[j],
            decreases 5 - i,
        {
            let v = self.function[i] + other.function[i];
            self.function.set(i, v);
            i = i + 1;
        }
    }

    /// Count one access through `function`.
    pub fn increment(&mut self, function: Function)
        requires
            old(self).wf(),
            old(self).function@[function.spec_index()] < u64::MAX,
        ensures
            final(self).wf(),
            final(self).function@ == old(self).function@.update(
                function.spec_index(),
                (old(self).function@[function.spec_index()] + 1) as u64,
            ),
    {
        self.add(function, 1);
    }

    /// Add `value` to the counter of `function`.
    pub fn add(&mut self, function: Function, value: u64)
        requires
            old(self).wf(),
            old(self).function@[function.spec_index()] + value <= u64::MAX,
        ensures
            final(self).wf(),
            final(self).function@ == old(self).function@.update(
                function.spec_index(),
                (old(self).function@[function.spec_index()] + value) as u64,
            ),
    {
        let idx = function.index();
        let v = self.function[idx] + value;
        self.function.set(idx, v);
    }

    /// Sum of all five counters.
    pub fn total(&self) -> (r: u64)
        requires
            self.wf(),
            self.function@[0] + self.function@[1] + self.function@[2] + self.function@[3]
                + self.function@[4] <= u64::MAX,
        ensures
            r == self.function@[0] + self.function@[1] + self.function@[2] + self.function@[3]
                + self.function@[4],
    {
        self.function[0] + self.function[1] + self.function[2] + self.function[3]
            + self.function[4]
    }
}

/// Number of microsecond-level penalty buckets.
pub const US_PENALTY_STEP_SIZE: usize = 200;

/// Number of hundred-nanosecond-level penalty buckets.
pub const NS_PENALTY_STEP_SIZE: usize = 40;

/// The penalty incurred on cache misses: its per-function total and its
/// distribution at microsecond and nanosecond granularity.
pub struct MissesPenalty {
    /// Accumulated penalty time per function.
    pub time: AccessStats,
    /// Distribution in microseconds, one bucket each, the last
    /// unbounded.
    pub us_percentile: Vec<u64>,
    /// Distribution in hundreds of nanoseconds below four
    /// microseconds.
    pub ns_percentile: Vec<u64>,
}

/// The microsecond bucket a penalty of `time_in_ns` falls into.
pub open spec fn spec_us_bucket(time_in_ns: u64) -> int {
    if time_in_ns / 1000 < (US_PENALTY_STEP_SIZE - 1) {
        time_in_ns as int / 1000
    } else {
        US_PENALTY_STEP_SIZE - 1
    }
}

impl MissesPenalty {
    pub open spec fn wf(&self) -> bool {
        &&& self.time.wf()
        &&& self.us_percentile@.len() == US_PENALTY_STEP_SIZE
        &&& self.ns_percentile@.len() == NS_PENALTY_STEP_SIZE
    }

    pub open spec fn is_zero(&self) -> bool {
        &&& self.time.is_zero()
        &&& forall|i: int| 0 <= i < US_PENALTY_STEP_SIZE ==> #[trigger] self.us_percentile@[i] == 0
        &&& forall|i: int| 0 <= i < NS_PENALTY_STEP_SIZE ==> #[trigger] self.ns_percentile@[i] == 0
    }

    /// The empty distribution.
    pub fn new() -> (r: MissesPenalty)
        ensures
            r.wf(),
            r.is_zero(),
    {
        let time = AccessStats::new();
        let mut us_percentile: Vec<u64> = Vec::with_capacity(US_PENALTY_STEP_SIZE);
        let mut i: usize = 0;
        while i < US_PENALTY_STEP_SIZE
            invariant
                us_percentile@.len() == i,
                i <= US_PENALTY_STEP_SIZE,
                forall|j: int| 0 <= j < i ==> #[trigger] us_percentile@[j] == 0,
            decreases US_PENALTY_STEP_SIZE - i,
        {
            us_percentile.push(0u64);
            i = i + 1;
        }
        let mut ns_percentile: Vec<u64> = Vec::with_capacity(NS_PENALTY_STEP_SIZE);
        let mut k: usize = 0;
        while k < NS_PENALTY_STEP_SIZE
            invariant
                ns_percentile@.len() == k,
                k <= NS_PENALTY_STEP_SIZE,
                forall|j: int| 0 <= j < k ==> #[trigger] ns_percentile@[j] == 0,
            decreases NS_PENALTY_STEP_SIZE - k,
        {
            ns_percentile.push(0u64);
            k = k + 1;
        }
        MissesPenalty { time, us_percentile, ns_percentile }
    }

    /// An exact copy.
    pub fn duplicate(&self) -> (r: MissesPenalty)
        requires
            self.wf(),
        ensures
            r.wf(),
            r.time.function@ == self.time.function@,
            r.us_percentile@ == self.us_percentile@,
            r.ns_percentile@ == self.ns_percentile@,
    {
        let us = self.us_percentile.clone();
        let ns = self.ns_percentile.clone();
        proof {
            assert(us@ =~= self.us_percentile@);
            assert(ns@ =~= self.ns_percentile@);
        }
        MissesPenalty { time: self.time.duplicate(), us_percentile: us, ns_percentile: ns }
    }

    /// Add another distribution bucket by bucket.
    pub fn update(&mut self, other: &MissesPenalty)
        requires
            old(self).wf(),
            other.wf(),
            forall|i: int| 0 <= i < 5
                ==> (#[trigger] old(self).time.function@[i]) + other.time.function@[i]
                    <= u64::MAX,
            forall|i: int| 0 <= i < US_PENALTY_STEP_SIZE
                ==> (#[trigger] old(self).us_percentile@[i]) + other.us_percentile@[i]
                    <= u64::MAX,
            forall|i: int| 0 <= i < NS_PENALTY_STEP_SIZE
                ==> (#[trigger] old(self).ns_percentile@[i]) + other.ns_percentile@[i]
                    <= u64::MAX,
        ensures
            final(self).wf(),
            forall|i: int| 0 <= i < 5 ==> #[trigger] final(self).time.function@[i]
                == old(self).time.function@[i] + other.time.function@[i],
            forall|i: int| 0 <= i < US_PENALTY_STEP_SIZE
                ==> #[trigger] final(self).us_percentile@[i]
                    == old(self).us_percentile@[i] + other.us_percentile@[i],
            forall|i: int| 0 <= i < NS_PENALTY_STEP_SIZE
                ==> #[trigger] final(self).ns_percentile@[i]
                    == old(self).ns_percentile@[i] + other.ns_percentile@[i],
    {
        self.time.update(&other.time);

        let ghost tf = self.time.function@;
        let mut i: usize = 0;
        while i < US_PENALTY_STEP_SIZE
            invariant
                self.us_percentile@.len() == US_PENALTY_STEP_SIZE,
                other.wf(),
                i <= US_PENALTY_STEP_SIZE,
                self.time.wf(),
                self.time.function@ == tf,
                forall|j: int| 0 <= j < US_PENALTY_STEP_SIZE
                    ==> (#[trigger] old(self).us_percentile@[j]) + other.us_percentile@[j]
                        <= u64::MAX,
                forall|j: int| 0 <= j < i ==> #[trigger] self.us_percentile@[j]
                    == old(self).us_percentile@[j] + other.us_percentile@[j],
                forall|j: int| i <= j < US_PENALTY_STEP_SIZE
                    ==> #[trigger] self.us_percentile@[j] == old(self).us_percentile@[j],
                self.ns_percentile@ == old(self).ns_percentile@,
            decreases US_PENALTY_STEP_SIZE - i,
        {
            let v = self.us_percentile[i] + other.us_percentile[i];
            self.us_percentile.set(i, v);
            i = i + 1;
        }

        let ghost usf = self.us_percentile@;
        let mut k: usize = 0;
        while k < NS_PENALTY_STEP_SIZE
            invariant
                self.ns_percentile@.len() == NS_PENALTY_STEP_SIZE,
                other.wf(),
                k <= NS_PENALTY_STEP_SIZE,
                self.time.wf(),
                self.time.function@ == tf,
                self.us_percentile@ == usf,
                forall|j: int| 0 <= j < NS_PENALTY_STEP_SIZE
                    ==> (#[trigger] old(self).ns_percentile@[j]) + other.ns_percentile@[j]
                        <= u64::MAX,
                forall|j: int| 0 <= j < k ==> #[trigger] self.ns_percentile@[j]
                    == old(self).ns_percentile@[j] + other.ns_percentile@[j],
                forall|j: int| k <= j < NS_PENALTY_STEP_SIZE
                    ==> #[trigger] self.ns_percentile@[j] == old(self).ns_percentile@[j],
            decreases NS_PENALTY_STEP_SIZE - k,
        {
            let v = self.ns_percentile[k] + other.ns_percentile[k];
            self.ns_percentile.set(k, v);
            k = k + 1;
        }
    }

    /// Count one penalty of `time_in_ns` nanoseconds into the
    /// microsecond distribution, and below four microseconds also into
    /// the nanosecond distribution.
    pub fn percentile(&mut self, time_in_ns: u64)
        requires
            old(self).wf(),
            forall|i: int| 0 <= i < US_PENALTY_STEP_SIZE
                ==> #[trigger] old(self).us_percentile@[i] < u64::MAX,
            forall|i: int| 0 <= i < NS_PENALTY_STEP_SIZE
                ==> #[trigger] old(self).ns_percentile@[i] < u64::MAX,
        ensures
            final(self).wf(),
            final(self).time.function@ == old(self).time.function@,
            ({
                let b = spec_us_bucket(time_in_ns);
                final(self).us_percentile@ == old(self).us_percentile@.update(
                    b, (old(self).us_percentile@[b] + 1) as u64)
            }),
            time_in_ns < 4000 ==> final(self).ns_percentile@
                == old(self).ns_percentile@.update(
                    time_in_ns as int / 100,
                    (old(self).ns_percentile@[time_in_ns as int / 100] + 1) as u64,
                ),
            time_in_ns >= 4000 ==> final(self).ns_percentile@ == old(self).ns_percentile@,
    {
        let idx64 = time_in_ns / 1000;
        let index = if idx64 > (US_PENALTY_STEP_SIZE - 1) as u64 {
            US_PENALTY_STEP_SIZE - 1
        } else {
            idx64 as usize
        };
        let v = self.us_percentile[index] + 1;
        self.us_percentile.set(index, v);

        if time_in_ns < 4000 {
            let nidx = (time_in_ns / 100) as usize;
            let w = self.ns_percentile[nidx] + 1;
            self.ns_percentile.set(nidx, w);
        }
    }
}

/// Cache traffic of one execution: hits, misses, and the penalty paid
/// for the misses.
pub struct CacheDbRecord {
    /// The number of cache hits, per function.
    pub hits: AccessStats,
    /// The number of cache misses, per function.
    pub misses: AccessStats,
    /// The penalty incurred on the misses.
    pub penalty: MissesPenalty,
}

impl CacheDbRecord {
    pub open spec fn wf(&self) -> bool {
        &&& self.hits.wf()
        &&& self.misses.wf()
        &&& self.penalty.wf()
    }

    pub open spec fn is_initial(&self) -> bool {
        &&& self.hits.is_zero()
        &&& self.misses.is_zero()
        &&& self.penalty.is_zero()
    }

    /// The empty record.
    pub fn new() -> (r: CacheDbRecord)
        ensures
            r.wf(),
            r.is_initial(),
    {
        CacheDbRecord {
            hits: AccessStats::new(),
            misses: AccessStats::new(),
            penalty: MissesPenalty::new(),
        }
    }

    /// Merge the counters of `other` into `self`.
    pub fn update(&mut self, other: &CacheDbRecord)
        requires
            old(self).wf(),
            other.wf(),
            forall|i: int| 0 <= i < 5
                ==> (#[trigger] old(self).hits.function@[i]) + other.hits.function@[i]
                    <= u64::MAX,
            forall|i: int| 0 <= i < 5
                ==> (#[trigger] old(self).misses.function@[i]) + other.misses.function@[i]
                    <= u64::MAX,
            forall|i: int| 0 <= i < 5
                ==> (#[trigger] old(self).penalty.time.function@[i])
                    + other.penalty.time.function@[i] <= u64::MAX,
            forall|i: int| 0 <= i < US_PENALTY_STEP_SIZE
                ==> (#[trigger] old(self).penalty.us_percentile@[i])
                    + other.penalty.us_percentile@[i] <= u64::MAX,
            forall|i: int| 0 <= i < NS_PENALTY_STEP_SIZE
                ==> (#[trigger] old(self).penalty.ns_percentile@[i])
                    + other.penalty.ns_percentile@[i] <= u64::MAX,
        ensures
            final(self).wf(),
            forall|i: int| 0 <= i < 5 ==> #[trigger] final(self).hits.function@[i]
                == old(self).hits.function@[i] + other.hits.function@[i],
            forall|i: int| 0 <= i < 5 ==> #[trigger] final(self).misses.function@[i]
                == old(self).misses.function@[i] + other.misses.function@[i],
            forall|i: int| 0 <= i < 5 ==> #[trigger] final(self).penalty.time.function@[i]
                == old(self).penalty.time.function@[i] + other.penalty.time.function@[i],
            forall|i: int| 0 <= i < US_PENALTY_STEP_SIZE
                ==> #[trigger] final(self).penalty.us_percentile@[i]
                    == old(self).penalty.us_percentile@[i] + other.penalty.us_percentile@[i],
            forall|i: int| 0 <= i < NS_PENALTY_STEP_SIZE
                ==> #[trigger] final(self).penalty.ns_percentile@[i]
                    == old(self).penalty.ns_percentile@[i] + other.penalty.ns_percentile@[i],
    {
        self.hits.update(&other.hits);
        self.misses.update(&other.misses);
        self.penalty.update(&other.penalty);
    }

    /// Hits plus misses, per function.
    pub fn access_count(&self) -> (r: AccessStats)
        requires
            self.wf(),
            forall|i: int| 0 <= i < 5
                ==> (#[trigger] self.hits.function@[i]) + self.misses.function@[i] <= u64::MAX,
        ensures
            r.wf(),
            forall|i: int| 0 <= i < 5 ==> #[trigger] r.function@[i]
                == self.hits.function@[i] + self.misses.function@[i],
    {
        let mut stats = self.hits.duplicate();
        stats.update(&self.misses);
        stats
    }

    /// The hit counters.
    pub fn hit_stats(&self) -> (r: AccessStats)
        requires
            self.wf(),
        ensures
            r.wf(),
            r.function@ == self.hits.function@,
    {
        self.hits.duplicate()
    }

    /// The miss counters.
    pub fn miss_stats(&self) -> (r: AccessStats)
        requires
            self.wf(),
        ensures
            r.wf(),
            r.function@ == self.misses.function@,
    {
        self.misses.duplicate()
    }

    /// The penalty distribution.
    pub fn penalty_stats(&self) -> (r: MissesPenalty)
        requires
            self.wf(),
        ensures
            r.wf(),
            r.time.function@ == self.penalty.time.function@,
            r.us_percentile@ == self.penalty.us_percentile@,
            r.ns_percentile@ == self.penalty.ns_percentile@,
    {
        self.penalty.duplicate()
    }

    /// Count one hit through `function`.
    pub fn hit(&mut self, function: Function)
        requires
            old(self).wf(),
            old(self).hits.function@[function.spec_index()] < u64::MAX,
        ensures
            final(self).wf(),
            final(self).hits.function@ == old(self).hits.function@.update(
                function.spec_index(),
                (old(self).hits.function@[function.spec_index()] + 1) as u64,
            ),
            final(self).misses == old(self).misses,
            final(self).penalty == old(self).penalty,
    {
        self.hits.increment(function);
    }

    /// Count one miss through `function`, with the penalty it cost: the
    /// miss counter goes up by one, the per-function penalty total
    /// accumulates (saturating), and the penalty distribution counts
    /// the event.
    pub fn miss(&mut self, function: Function, penalty: u64)
        requires
            old(self).wf(),
            old(self).misses.function@[function.spec_index()] < u64::MAX,
            forall|i: int| 0 <= i < US_PENALTY_STEP_SIZE
                ==> #[trigger] old(self).penalty.us_percentile@[i] < u64::MAX,
            forall|i: int| 0 <= i < NS_PENALTY_STEP_SIZE
                ==> #[trigger] old(self).penalty.ns_percentile@[i] < u64::MAX,
        ensures
            final(self).wf(),
            final(self).hits == old(self).hits,
            final(self).misses.function@ == old(self).misses.function@.update(
                function.spec_index(),
                (old(self).misses.function@[function.spec_index()] + 1) as u64,
            ),
            ({
                let idx = function.spec_index();
                let a = old(self).penalty.time.function@[idx];
                let v: u64 = if a + penalty <= u64::MAX { (a + penalty) as u64 } else { u64::MAX };
                final(self).penalty.time.function@
                    == old(self).penalty.time.function@.update(idx, v)
            }),
            ({
                let b = spec_us_bucket(penalty);
                final(self).penalty.us_percentile@ == old(self).penalty.us_percentile@.update(
                    b, (old(self).penalty.us_percentile@[b] + 1) as u64)
            }),
            penalty < 4000 ==> final(self).penalty.ns_percentile@
                == old(self).penalty.ns_percentile@.update(
                    penalty as int / 100,
                    (old(self).penalty.ns_percentile@[penalty as int / 100] + 1) as u64,
                ),
            penalty >= 4000 ==> final(self).penalty.ns_percentile@
                == old(self).penalty.ns_percentile@,
    {
        self.misses.increment(function);
        let idx = function.index();
        let a = self.penalty.time.function[idx];
        let v = if a <= u64::MAX - penalty {
            a + penalty
        } else {
            u64::MAX
        };
        self.penalty.time.function.set(idx, v);
        self.penalty.percentile(penalty);
    }

    /// Total accesses in the basic lookup.
    pub fn total_in_basic(&self) -> (r: u64)
        requires
            self.wf(),
            self.hits.function@[0] + self.misses.function@[0] <= u64::MAX,
        ensures
            r == self.hits.function@[0] + self.misses.function@[0],
    {
        self.hits.function[0] + self.misses.function[0]
    }

    /// Total accesses in the code-by-hash lookup.
    pub fn total_in_code_by_hash(&self) -> (r: u64)
        requires
            self.wf(),
            self.hits.function@[1] + self.misses.function@[1] <= u64::MAX,
        ensures
            r == self.hits.function@[1] + self.misses.function@[1],
    {
        self.hits.function[1] + self.misses.function[1]
    }

    /// Total accesses in the storage lookup.
    pub fn total_in_storage(&self) -> (r: u64)
        requires
            self.wf(),
            self.hits.function@[2] + self.misses.function@[2] <= u64::MAX,
        ensures
            r == self.hits.function@[2] + self.misses.function@[2],
    {
        self.hits.function[2] + self.misses.function[2]
    }

    /// Total accesses in the block-hash lookup.
    pub fn total_in_block_hash(&self) -> (r: u64)
        requires
            self.wf(),
            self.hits.function@[3] + self.misses.function@[3] <= u64::MAX,
        ensures
            r == self.hits.function@[3] + self.misses.function@[3],
    {
        self.hits.function[3] + self.misses.function[3]
    }

    /// Total accesses in the account-loading lookup.
    pub fn total_in_load_account(&self) -> (r: u64)
        requires
            self.wf(),
            self.hits.function@[4] + self.misses.function@[4] <= u64::MAX,
        ensures
            r == self.hits.function@[4] + self.misses.function@[4],
    {
        self.hits.function[4] + self.misses.function[4]
    }

    /// Total cache hits over all functions.
    pub fn total_hits(&self) -> (r: u64)
        requires
            self.wf(),
            self.hits.function@[0] + self.hits.function@[1] + self.hits.function@[2]
                + self.hits.function@[3] + self.hits.function@[4] <= u64::MAX,
        ensures
            r == self.hits.function@[0] + self.hits.function@[1] + self.hits.function@[2]
                + self.hits.function@[3] + self.hits.function@[4],
    {
        self.hits.total()
    }

    /// Total cache misses over all functions.
    pub fn total_miss(&self) -> (r: u64)
        requires
            self.wf(),
            self.misses.function@[0] + self.misses.function@[1] + self.misses.function@[2]
                + self.misses.function@[3] + self.misses.function@[4] <= u64::MAX,
        ensures
            r == self.misses.function@[0] + self.misses.function@[1] + self.misses.function@[2]
                + self.misses.function@[3] + self.misses.function@[4],
    {
        self.misses.total()
    }

    /// Total penalty time over all functions.
    pub fn total_penalty_times(&self) -> (r: u64)
        requires
            self.wf(),
            self.penalty.time.function@[0] + self.penalty.time.function@[1]
                + self.penalty.time.function@[2] + self.penalty.time.function@[3]
                + self.penalty.time.function@[4] <= u64::MAX,
        ensures
            r == self.penalty.time.function@[0] + self.penalty.time.function@[1]
                + self.penalty.time.function@[2] + self.penalty.time.function@[3]
                + self.penalty.time.function@[4],
    {
        self.penalty.time.total()
    }
}

impl Default for CacheDbRecord {
    /// The empty record.
    fn default() -> (r: Self)
        ensures
            r.wf(),
            r.is_initial(),
    {
        CacheDbRecord::new()
    }
}

} // verus!
