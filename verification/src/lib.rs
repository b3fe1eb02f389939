//! Core of a stack-based virtual machine that executes account-level
//! bytecode under a deterministic, gas-metered cost model.
//!
//! The crate provides the operand stack, the byte-addressable scratch
//! memory with billed growth, the gas ledger, the bytecode analysis pass
//! that locks code and validates jump destinations, and the fetch-execute
//! control loop, together with the record types used to observe
//! instruction and cache behaviour from outside the engine.

use vstd::prelude::*;

pub mod analysis;
pub mod contract;
pub mod gas;
pub mod host;
pub mod interpreter;
pub mod log;
pub mod memory;
pub mod metrics;
pub mod result;
pub mod stack;
pub mod time_utils;
pub mod word;

verus! {

/// Capacity of the operand stack, in words.
pub const STACK_LIMIT: usize = 1024;

/// Ceiling on the depth of nested calls and creates.
pub const CALL_STACK_LIMIT: u64 = 1024;

/// Ceiling on the size of deployed code.
pub const MAX_CODE_SIZE: usize = 0x6000;

/// Ceiling on the size of initialization code: twice the deployed ceiling.
pub const MAX_INITCODE_SIZE: usize = 2 * MAX_CODE_SIZE;

} // verus!
