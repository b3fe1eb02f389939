//! The world capability: the externally supplied interface through
//! which the control loop reaches everything outside one frame.

use vstd::prelude::*;
use crate::interpreter::Interpreter;
use crate::result::InstructionResult;
use crate::word::Word;

verus! {

/// Parameters handed to the world for a nested message call.
pub struct CallInputs {
    /// Callee, as the word popped from the operand stack.
    pub target: Word,
    /// Value to transfer.
    pub value: Word,
    /// Gas forwarded to the nested frame.
    pub gas_limit: u64,
    /// Depth of the nested frame.
    pub depth: u64,
    /// Whether the nested frame runs in a static context.
    pub is_static: bool,
}

/// What the world reports back from a nested execution.
pub struct CallOutcome {
    /// Terminal state of the nested frame.
    pub result: InstructionResult,
    /// Gas left unused by the nested frame, returned to the caller. The
    /// control loop clamps this to the gas it forwarded.
    pub gas_remaining: u64,
    /// Output bytes of the nested frame.
    pub output: Vec<u8>,
}

/// The world capability consumed by the control loop: tracing hooks
/// around each step and the entry points for nested execution. It is
/// implemented outside this crate; nothing is assumed about what its
/// methods return, and the control loop is verified for every possible
/// answer.
pub trait Host {
    /// Hook before each step of the inspecting loop; a terminal result
    /// short-circuits the run.
    fn step(&mut self, interp: &Interpreter, is_static: bool) -> InstructionResult;

    /// Hook after each step of the inspecting loop; a terminal result
    /// short-circuits the run.
    fn step_end(
        &mut self,
        interp: &Interpreter,
        is_static: bool,
        result: InstructionResult,
    ) -> InstructionResult;

    /// Run a nested message call to completion and report its outcome.
    fn call(&mut self, inputs: CallInputs) -> CallOutcome;

    /// Run a nested contract creation to completion and report its
    /// outcome.
    fn create(&mut self, inputs: CallInputs) -> CallOutcome;
}

} // verus!
