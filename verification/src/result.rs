//! Terminal and non-terminal outcomes of instruction execution.

use vstd::prelude::*;

verus! {

/// Outcome reported by each instruction and carried by the control loop.
///
/// `Continue` is the only non-terminal state. Everything else ends the
/// frame: intentional termination (`Stop`, `Return`, `Revert`), resource
/// exhaustion (`OutOfGas`, `MemoryLimitExceeded`, `StackOverflow`,
/// `CallTooDeep`, `StackUnderflow`), malformed programs (`InvalidOpcode`,
/// `InvalidJump`, `CodeSizeLimit`) and protocol violations inside a
/// read-only call context (`StaticCallViolation`).
#[derive(Clone, Copy, Debug, PartialEq, Eq, Structural)]
pub enum InstructionResult {
    Continue,
    Stop,
    Return,
    Revert,
    OutOfGas,
    MemoryLimitExceeded,
    StackOverflow,
    StackUnderflow,
    InvalidJump,
    InvalidOpcode,
    CallTooDeep,
    CreateCollision,
    CodeSizeLimit,
    StaticCallViolation,
}

impl InstructionResult {
    /// A terminal state stops the control loop.
    pub open spec fn is_terminal(self) -> bool {
        self != InstructionResult::Continue
    }

    /// Intentional termination that produced a meaningful frame outcome.
    pub open spec fn is_success(self) -> bool {
        self == InstructionResult::Stop || self == InstructionResult::Return
    }

    /// A fault: the frame ends abnormally and yields no output bytes.
    pub open spec fn is_fault(self) -> bool {
        self.is_terminal() && !self.is_success() && self != InstructionResult::Revert
    }

    /// Executable query matching `is_terminal`.
    pub fn terminal(&self) -> (r: bool)
        ensures
            r == self.is_terminal(),
    {
        *self != InstructionResult::Continue
    }

    /// Executable query matching `is_fault`.
    pub fn fault(&self) -> (r: bool)
        ensures
            r == self.is_fault(),
    {
        match self {
            InstructionResult::Continue => false,
            InstructionResult::Stop => false,
            InstructionResult::Return => false,
            InstructionResult::Revert => false,
            _ => true,
        }
    }
}

} // verus!
