//! The instruction recorder: collects per-opcode execution counts,
//! durations and gas into an [`OpcodeRecord`]. State is explicit — the
//! caller owns the recorder and passes it in — so the engine stays free
//! of ambient mutable state.

use vstd::prelude::*;
use vstd::pervasive::VecAdditionalExecFns;
use crate::metrics::types::{spec_sload_bucket, OpcodeRecord};
use crate::time_utils::now_ticks;

verus! {

/// Opcode whose durations feed the sload ladder.
pub const SLOAD_OPCODE: u8 = 0x54;

/// Ticks per millisecond of the recorder's clock.
pub const TICKS_PER_MS: u64 = 1000000;

/// Recording state: the record under construction and the clock
/// readings that delimit it.
pub struct InstructionRecorder {
    /// The record under construction.
    pub record: OpcodeRecord,
    /// Reading taken when recording started.
    pub start_time: Option<u64>,
    /// Reading taken at the previous recorded event.
    pub pre_time: Option<u64>,
    /// Whether recording has started.
    pub started: bool,
}

impl InstructionRecorder {
    /// Once started, both clock readings are present.
    pub open spec fn wf(&self) -> bool {
        &&& self.record.wf()
        &&& (self.started ==> self.start_time is Some && self.pre_time is Some)
    }

    /// A fresh recorder holding an empty record.
    pub fn new() -> (r: InstructionRecorder)
        ensures
            r.wf(),
            r.record.is_initial(),
            !r.started,
    {
        InstructionRecorder {
            record: OpcodeRecord::default(),
            start_time: None,
            pre_time: None,
            started: false,
        }
    }
}

/// Start recording: anchor both clock readings at now. Starting twice
/// leaves the recorder exactly as it was.
pub fn start_record(recorder: &mut InstructionRecorder)
    requires
        old(recorder).wf(),
    ensures
        final(recorder).wf(),
        final(recorder).started,
        final(recorder).record == old(recorder).record,
        old(recorder).started ==> *final(recorder) == *old(recorder),
{
    let now = now_ticks();
    if !recorder.started {
        recorder.start_time = Some(now);
        recorder.pre_time = Some(now);
    }
    recorder.started = true;
}

/// Record one executed opcode: its counter goes up by one, the time
/// since the previous event accumulates on its slot (saturating, since
/// the clock answers are not ours to bound), and an sload feeds the
/// duration ladder.
pub fn record(recorder: &mut InstructionRecorder, opcode: u8)
    requires
        old(recorder).wf(),
        old(recorder).started,
        old(recorder).record.opcode_record@[opcode as int].0 < u64::MAX,
        forall|i: int| 0 <= i < 4
            ==> (#[trigger] old(recorder).record.sload_opcode_record@[i]).1 < u64::MAX,
    ensures
        final(recorder).wf(),
        final(recorder).started,
        final(recorder).record.is_updated,
        ({
            let a = old(recorder).record.opcode_record@[opcode as int];
            let b = final(recorder).record.opcode_record@[opcode as int];
            b.0 == a.0 + 1 && b.1 >= a.1 && b.2 == a.2
        }),
        forall|j: int| 0 <= j < 256 && j != opcode
            ==> #[trigger] final(recorder).record.opcode_record@[j]
                == old(recorder).record.opcode_record@[j],
        opcode != SLOAD_OPCODE ==> final(recorder).record.sload_opcode_record@
            == old(recorder).record.sload_opcode_record@,
        opcode == SLOAD_OPCODE ==> exists|b: int| {
            &&& 0 <= b < 4
            &&& final(recorder).record.sload_opcode_record@
                == #[trigger] old(recorder).record.sload_opcode_record@.update(
                    b,
                    (
                        old(recorder).record.sload_opcode_record@[b].0,
                        (old(recorder).record.sload_opcode_record@[b].1 + 1) as u64,
                    ),
                )
        },
{
    let now = now_ticks();
    let pre = match recorder.pre_time {
        Some(t) => t,
        None => {
            proof {
                assert(false);
            }
            0
        },
    };
    let cycles = if now >= pre {
        now - pre
    } else {
        0
    };

    let e = recorder.record.opcode_record[opcode as usize];
    let t1 = if e.1 <= u64::MAX - cycles {
        e.1 + cycles
    } else {
        u64::MAX
    };
    recorder.record.opcode_record.set(opcode as usize, (e.0 + 1, t1, e.2));
    recorder.pre_time = Some(now);

    let start = match recorder.start_time {
        Some(t) => t,
        None => {
            proof {
                assert(false);
            }
            0
        },
    };
    recorder.record.total_time = if now >= start {
        now - start
    } else {
        0
    };

    if opcode == SLOAD_OPCODE {
        let ms = cycles / TICKS_PER_MS;
        recorder.record.add_sload_opcode_record(ms);
        proof {
            assert(0 <= spec_sload_bucket(ms) < 4);
        }
    }

    recorder.record.is_updated = true;
}

/// Record the gas consumed by one opcode execution.
pub fn record_gas(recorder: &mut InstructionRecorder, opcode: u8, gas_used: u64)
    requires
        old(recorder).wf(),
        old(recorder).record.opcode_record@[opcode as int].2 + gas_used <= i128::MAX,
    ensures
        final(recorder).wf(),
        ({
            let a = old(recorder).record.opcode_record@[opcode as int];
            final(recorder).record.opcode_record@
                == old(recorder).record.opcode_record@.update(
                    opcode as int, (a.0, a.1, (a.2 + gas_used) as i128))
        }),
        final(recorder).record.sload_opcode_record@
            == old(recorder).record.sload_opcode_record@,
        final(recorder).record.total_time == old(recorder).record.total_time,
        final(recorder).record.is_updated == old(recorder).record.is_updated,
        final(recorder).started == old(recorder).started,
{
    let e = recorder.record.opcode_record[opcode as usize];
    recorder.record.opcode_record.set(opcode as usize, (e.0, e.1, e.2 + gas_used as i128));
}

/// Take the record out of the recorder, leaving it reset: the returned
/// value is exactly what was collected, and the recorder starts over
/// empty and stopped.
pub fn get_record(recorder: &mut InstructionRecorder) -> (r: OpcodeRecord)
    requires
        old(recorder).wf(),
    ensures
        r == old(recorder).record,
        final(recorder).wf(),
        final(recorder).record.is_initial(),
        !final(recorder).started,
        final(recorder).start_time is None,
        final(recorder).pre_time is None,
{
    recorder.start_time = None;
    recorder.pre_time = None;
    recorder.started = false;
    let mut out = OpcodeRecord::default();
    core::mem::swap(&mut out, &mut recorder.record);
    out
}

} // verus!
