//! The control loop: fetch the opcode at the cursor, advance, dispatch,
//! repeat until a terminal state.

use vstd::prelude::*;
use crate::analysis::{
    spec_imm_len, spec_jump_dests, OP_CALL, OP_DUP1, OP_DUP16, OP_GAS, OP_JUMP, OP_JUMPDEST,
    OP_JUMPI, OP_MSIZE, OP_PC, OP_POP, OP_PUSH1, OP_PUSH32, OP_RETURN, OP_REVERT, OP_STOP,
    OP_SWAP1, OP_SWAP16,
};
use crate::contract::Contract;
use crate::gas::{spec_charge, Gas};
use crate::host::{CallInputs, CallOutcome, Host};
use crate::memory::{rounded_len, spec_grown_len, spec_memory_gas, Memory};
use crate::result::InstructionResult;
use crate::stack::Stack;
use crate::word::{be_val, Word};
use crate::CALL_STACK_LIMIT;

verus! {

pub const GAS_BASE: u64 = 2;
pub const GAS_VERYLOW: u64 = 3;
pub const GAS_MID: u64 = 8;
pub const GAS_HIGH: u64 = 10;
pub const GAS_JUMPDEST: u64 = 1;
pub const GAS_CALL_BASE: u64 = 100;

/// The byte view of the all-zero word.
pub open spec fn zero_word() -> Seq<u8> {
    Seq::new(32, |i: int| 0u8)
}

/// One interpreter frame: the cursor into the locked code, the running
/// result flag, and exclusive ownership of stack, memory, gas ledger
/// and invocation context for the duration of one run.
pub struct Interpreter {
    /// Offset of the next instruction in the padded code buffer.
    pub program_counter: usize,
    /// Main control flag: the loop runs while this is `Continue`.
    pub instruction_result: InstructionResult,
    /// Gas ledger of this frame.
    pub gas: Gas,
    /// Scratch memory of this frame.
    pub memory: Memory,
    /// Operand stack of this frame.
    pub stack: Stack,
    /// Return data of the most recent nested call.
    pub return_data_buffer: Vec<u8>,
    /// Start of the frame's return range; `usize::MAX` means no data.
    pub return_range_start: usize,
    /// End of the frame's return range.
    pub return_range_end: usize,
    /// Whether this frame runs in a static (read-only) context.
    pub is_static: bool,
    /// Depth of this frame in the call chain; the outermost frame is 0.
    pub call_depth: u64,
    /// Terminal state of the most recent nested call attempt.
    pub nested_call_result: InstructionResult,
    /// The invocation context; never mutated after construction.
    pub contract: Contract,
}

/// The opcode the next step will fetch.
pub open spec fn spec_fetched(pre: Interpreter) -> u8 {
    pre.contract.bytecode.code()[pre.program_counter as int]
}

/// Fields one step never changes.
pub open spec fn sp_frame(pre: Interpreter, post: Interpreter) -> bool {
    &&& post.contract == pre.contract
    &&& post.is_static == pre.is_static
    &&& post.call_depth == pre.call_depth
    &&& post.gas.limit == pre.gas.limit
    &&& post.memory.spec_limit() == pre.memory.spec_limit()
}

/// Memory untouched.
pub open spec fn un_mem(pre: Interpreter, post: Interpreter) -> bool {
    post.memory@ == pre.memory@
}

/// Return data, return range and nested-call record untouched.
pub open spec fn un_ret(pre: Interpreter, post: Interpreter) -> bool {
    &&& post.return_data_buffer@ == pre.return_data_buffer@
    &&& post.return_range_start == pre.return_range_start
    &&& post.return_range_end == pre.return_range_end
    &&& post.nested_call_result == pre.nested_call_result
}

/// `STOP`: terminate successfully; nothing else changes and no gas is
/// charged.
pub open spec fn sp_stop(pre: Interpreter, post: Interpreter) -> bool {
    &&& post.instruction_result == InstructionResult::Stop
    &&& post.program_counter == pre.program_counter + 1
    &&& post.gas == pre.gas
    &&& post.stack@ == pre.stack@
    &&& un_mem(pre, post)
    &&& un_ret(pre, post)
}

/// An unassigned opcode: fault with `InvalidOpcode`; the whole run
/// state, gas included, stays as it was just before the step.
pub open spec fn sp_invalid(pre: Interpreter, post: Interpreter) -> bool {
    &&& post.instruction_result == InstructionResult::InvalidOpcode
    &&& post.program_counter == pre.program_counter + 1
    &&& post.gas == pre.gas
    &&& post.stack@ == pre.stack@
    &&& un_mem(pre, post)
    &&& un_ret(pre, post)
}

/// `JUMPDEST`: a no-op that only charges its gas.
pub open spec fn sp_jumpdest(pre: Interpreter, post: Interpreter) -> bool {
    let (g, ok) = spec_charge(pre.gas, GAS_JUMPDEST);
    &&& post.program_counter == pre.program_counter + 1
    &&& post.gas == g
    &&& post.stack@ == pre.stack@
    &&& un_mem(pre, post)
    &&& un_ret(pre, post)
    &&& post.instruction_result == if ok {
        InstructionResult::Continue
    } else {
        InstructionResult::OutOfGas
    }
}

/// `POP`: charge, then discard the top of the stack.
pub open spec fn sp_pop(pre: Interpreter, post: Interpreter) -> bool {
    let (g, ok) = spec_charge(pre.gas, GAS_BASE);
    &&& post.program_counter == pre.program_counter + 1
    &&& post.gas == g
    &&& un_mem(pre, post)
    &&& un_ret(pre, post)
    &&& if !ok {
        post.instruction_result == InstructionResult::OutOfGas && post.stack@ == pre.stack@
    } else if pre.stack@.len() == 0 {
        post.instruction_result == InstructionResult::StackUnderflow && post.stack@ == pre.stack@
    } else {
        post.instruction_result == InstructionResult::Continue
            && post.stack@ == pre.stack@.drop_last()
    }
}

/// Charge, then push one word whose numeric value is `v`; `PC`, `MSIZE`
/// and `GAS` all have this shape.
pub open spec fn sp_push_value(pre: Interpreter, post: Interpreter, cost: u64, v: nat) -> bool {
    let (g, ok) = spec_charge(pre.gas, cost);
    &&& post.program_counter == pre.program_counter + 1
    &&& post.gas == g
    &&& un_mem(pre, post)
    &&& un_ret(pre, post)
    &&& if !ok {
        post.instruction_result == InstructionResult::OutOfGas && post.stack@ == pre.stack@
    } else if pre.stack@.len() >= crate::STACK_LIMIT {
        post.instruction_result == InstructionResult::StackOverflow && post.stack@ == pre.stack@
    } else {
        &&& post.instruction_result == InstructionResult::Continue
        &&& exists|wv: Seq<u8>|
            wv.len() == 32 && #[trigger] be_val(wv) == v && post.stack@ == pre.stack@.push(wv)
    }
}

/// A push instruction: charge, read the immediate operand bytes, and
/// push them zero-extended; the cursor skips the operand.
pub open spec fn sp_push_imm(pre: Interpreter, post: Interpreter, op: u8) -> bool {
    let n = spec_imm_len(op);
    let imm = pre.contract.bytecode.code().subrange(
        pre.program_counter + 1,
        pre.program_counter + 1 + n,
    );
    let (g, ok) = spec_charge(pre.gas, GAS_VERYLOW);
    &&& post.gas == g
    &&& un_mem(pre, post)
    &&& un_ret(pre, post)
    &&& if !ok {
        &&& post.instruction_result == InstructionResult::OutOfGas
        &&& post.stack@ == pre.stack@
        &&& post.program_counter == pre.program_counter + 1
    } else if pre.stack@.len() >= crate::STACK_LIMIT {
        &&& post.instruction_result == InstructionResult::StackOverflow
        &&& post.stack@ == pre.stack@
        &&& post.program_counter == pre.program_counter + 1
    } else {
        &&& post.instruction_result == InstructionResult::Continue
        &&& post.stack@ == pre.stack@.push(
            Seq::new((32 - n) as nat, |i: int| 0u8).add(imm))
        &&& post.program_counter == pre.program_counter + 1 + n
    }
}

/// A duplicate instruction: charge, then push a copy of the word `k-1`
/// entries below the top.
pub open spec fn sp_dup(pre: Interpreter, post: Interpreter, op: u8) -> bool {
    let k = (op - OP_DUP1 + 1) as nat;
    let (g, ok) = spec_charge(pre.gas, GAS_VERYLOW);
    &&& post.program_counter == pre.program_counter + 1
    &&& post.gas == g
    &&& un_mem(pre, post)
    &&& un_ret(pre, post)
    &&& if !ok {
        post.instruction_result == InstructionResult::OutOfGas && post.stack@ == pre.stack@
    } else if pre.stack@.len() < k {
        post.instruction_result == InstructionResult::StackUnderflow && post.stack@ == pre.stack@
    } else if pre.stack@.len() >= crate::STACK_LIMIT {
        post.instruction_result == InstructionResult::StackOverflow && post.stack@ == pre.stack@
    } else {
        post.instruction_result == InstructionResult::Continue
            && post.stack@ == pre.stack@.push(pre.stack@[pre.stack@.len() - k])
    }
}

/// A swap instruction: charge, then exchange the top with the word `k`
/// entries below it.
pub open spec fn sp_swap(pre: Interpreter, post: Interpreter, op: u8) -> bool {
    let k = (op - OP_SWAP1 + 1) as nat;
    let (g, ok) = spec_charge(pre.gas, GAS_VERYLOW);
    let len = pre.stack@.len();
    &&& post.program_counter == pre.program_counter + 1
    &&& post.gas == g
    &&& un_mem(pre, post)
    &&& un_ret(pre, post)
    &&& if !ok {
        post.instruction_result == InstructionResult::OutOfGas && post.stack@ == pre.stack@
    } else if len < k + 1 {
        post.instruction_result == InstructionResult::StackUnderflow && post.stack@ == pre.stack@
    } else {
        post.instruction_result == InstructionResult::Continue
            && post.stack@ == pre.stack@
                .update(len - 1, pre.stack@[len - 1 - k])
                .update(len - 1 - k, pre.stack@[len - 1])
    }
}

/// `JUMP`: charge, pop the target, and move the cursor there exactly
/// when the target is a valid jump destination; any other target —
/// including any byte inside a push operand — faults with
/// `InvalidJump`.
pub open spec fn sp_jump(pre: Interpreter, post: Interpreter) -> bool {
    let (g, ok) = spec_charge(pre.gas, GAS_MID);
    let dests = spec_jump_dests(pre.contract.bytecode.orig());
    &&& post.gas == g
    &&& un_mem(pre, post)
    &&& un_ret(pre, post)
    &&& if !ok {
        &&& post.instruction_result == InstructionResult::OutOfGas
        &&& post.stack@ == pre.stack@
        &&& post.program_counter == pre.program_counter + 1
    } else if pre.stack@.len() == 0 {
        &&& post.instruction_result == InstructionResult::StackUnderflow
        &&& post.stack@ == pre.stack@
        &&& post.program_counter == pre.program_counter + 1
    } else {
        let target = be_val(pre.stack@.last());
        &&& post.stack@ == pre.stack@.drop_last()
        &&& if dests.contains(target) {
            post.instruction_result == InstructionResult::Continue
                && post.program_counter == target
        } else {
            post.instruction_result == InstructionResult::InvalidJump
                && post.program_counter == pre.program_counter + 1
        }
    }
}

/// `JUMPI`: charge, pop target and condition; jump as `JUMP` does when
/// the condition is nonzero, fall through when it is zero.
pub open spec fn sp_jumpi(pre: Interpreter, post: Interpreter) -> bool {
    let (g, ok) = spec_charge(pre.gas, GAS_HIGH);
    let dests = spec_jump_dests(pre.contract.bytecode.orig());
    &&& post.gas == g
    &&& un_mem(pre, post)
    &&& un_ret(pre, post)
    &&& if !ok {
        &&& post.instruction_result == InstructionResult::OutOfGas
        &&& post.stack@ == pre.stack@
        &&& post.program_counter == pre.program_counter + 1
    } else if pre.stack@.len() < 2 {
        &&& post.instruction_result == InstructionResult::StackUnderflow
        &&& post.stack@ == pre.stack@
        &&& post.program_counter == pre.program_counter + 1
    } else {
        let target = be_val(pre.stack@[pre.stack@.len() - 1]);
        let cond = be_val(pre.stack@[pre.stack@.len() - 2]);
        &&& post.stack@ == pre.stack@.drop_last().drop_last()
        &&& if cond == 0 {
            post.instruction_result == InstructionResult::Continue
                && post.program_counter == pre.program_counter + 1
        } else if dests.contains(target) {
            post.instruction_result == InstructionResult::Continue
                && post.program_counter == target
        } else {
            post.instruction_result == InstructionResult::InvalidJump
                && post.program_counter == pre.program_counter + 1
        }
    }
}

/// `RETURN` and `REVERT`: pop offset and length; record the return
/// range, growing memory first — billed before any growth — and
/// terminate with `r`. A zero length records the empty sentinel range
/// and costs nothing.
pub open spec fn sp_return(pre: Interpreter, post: Interpreter, r: InstructionResult) -> bool {
    &&& post.program_counter == pre.program_counter + 1
    &&& post.return_data_buffer@ == pre.return_data_buffer@
    &&& post.nested_call_result == pre.nested_call_result
    &&& if pre.stack@.len() < 2 {
        &&& post.instruction_result == InstructionResult::StackUnderflow
        &&& post.stack@ == pre.stack@
        &&& post.gas == pre.gas
        &&& un_mem(pre, post)
        &&& post.return_range_start == pre.return_range_start
        &&& post.return_range_end == pre.return_range_end
    } else {
        let off = be_val(pre.stack@[pre.stack@.len() - 1]);
        let len = be_val(pre.stack@[pre.stack@.len() - 2]);
        &&& post.stack@ == pre.stack@.drop_last().drop_last()
        &&& if len == 0 {
            &&& post.instruction_result == r
            &&& post.gas == pre.gas
            &&& un_mem(pre, post)
            &&& post.return_range_start == usize::MAX
            &&& post.return_range_end == usize::MAX
        } else if off + len > usize::MAX {
            &&& post.instruction_result == InstructionResult::OutOfGas
            &&& post.gas == pre.gas
            &&& un_mem(pre, post)
            &&& post.return_range_start == pre.return_range_start
            &&& post.return_range_end == pre.return_range_end
        } else if rounded_len((off + len) as nat) > pre.memory.spec_ceiling() {
            &&& post.instruction_result == InstructionResult::MemoryLimitExceeded
            &&& post.gas == pre.gas
            &&& un_mem(pre, post)
            &&& post.return_range_start == pre.return_range_start
            &&& post.return_range_end == pre.return_range_end
        } else {
            let old_words = pre.memory@.len() / 32;
            let new_words = spec_grown_len(pre.memory@.len(), (off + len) as nat) / 32;
            let d = spec_memory_gas(new_words as nat) - spec_memory_gas(old_words as nat);
            let cost = if d <= u64::MAX { d } else { u64::MAX as int };
            let (g, ok) = spec_charge(pre.gas, cost as u64);
            &&& post.gas == g
            &&& if !ok {
                &&& post.instruction_result == InstructionResult::OutOfGas
                &&& un_mem(pre, post)
                &&& post.return_range_start == pre.return_range_start
                &&& post.return_range_end == pre.return_range_end
            } else {
                &&& post.instruction_result == r
                &&& post.memory@.len() == spec_grown_len(pre.memory@.len(), (off + len) as nat)
                &&& post.memory@ == pre.memory@.add(
                    Seq::new((post.memory@.len() - pre.memory@.len()) as nat, |i: int| 0u8))
                &&& post.return_range_start == off
                &&& post.return_range_end == off + len
            }
        }
    }
}

/// `CALL`: enforce the static-context and call-depth rules, forward at
/// most the remaining gas to the world's nested-execution entry point,
/// reclaim no more than was forwarded, record the nested outcome and
/// its output bytes, and push a success flag. At the depth ceiling the
/// nested call is refused as `CallTooDeep` without consulting the
/// world; the frame itself continues either way.
pub open spec fn sp_call(pre: Interpreter, post: Interpreter) -> bool {
    &&& post.program_counter == pre.program_counter + 1
    &&& un_mem(pre, post)
    &&& if pre.stack@.len() < 7 {
        &&& post.instruction_result == InstructionResult::StackUnderflow
        &&& post.stack@ == pre.stack@
        &&& post.gas == pre.gas
        &&& un_ret(pre, post)
    } else if pre.is_static && be_val(pre.stack@[pre.stack@.len() - 3]) != 0 {
        &&& post.instruction_result == InstructionResult::StaticCallViolation
        &&& post.stack@ == pre.stack@
        &&& post.gas == pre.gas
        &&& un_ret(pre, post)
    } else {
        let (g1, ok) = spec_charge(pre.gas, GAS_CALL_BASE);
        if !ok {
            &&& post.instruction_result == InstructionResult::OutOfGas
            &&& post.stack@ == pre.stack@
            &&& post.gas == pre.gas
            &&& un_ret(pre, post)
        } else {
            let popped = pre.stack@.subrange(0, pre.stack@.len() - 7);
            &&& post.return_range_start == pre.return_range_start
            &&& post.return_range_end == pre.return_range_end
            &&& post.instruction_result == InstructionResult::Continue
            &&& if pre.call_depth + 1 > CALL_STACK_LIMIT {
                &&& post.nested_call_result == InstructionResult::CallTooDeep
                &&& post.return_data_buffer@ == Seq::<u8>::empty()
                &&& post.stack@ == popped.push(zero_word())
                &&& post.gas == g1
            } else {
                // The world answered; its result and output bytes are
                // whatever it reported, recorded as they came. Of the
                // gas, the frame keeps what was not forwarded and
                // reclaims at most what was.
                let req = be_val(pre.stack@[pre.stack@.len() - 1]);
                let fwd: nat = if req >= g1.remaining { g1.remaining as nat } else { req };
                &&& post.gas.limit == pre.gas.limit
                &&& post.gas.refunded == pre.gas.refunded
                &&& g1.remaining - fwd <= post.gas.remaining <= g1.remaining
                &&& exists|wv: Seq<u8>| {
                    &&& wv.len() == 32
                    &&& #[trigger] be_val(wv)
                        == if post.nested_call_result.is_success() { 1nat } else { 0nat }
                    &&& post.stack@ == popped.push(wv)
                }
            }
        }
    }
}

/// The full step relation: what one fetch-dispatch-advance does to the
/// frame, by opcode.
pub open spec fn spec_step_post(pre: Interpreter, post: Interpreter) -> bool {
    let op = spec_fetched(pre);
    if op == OP_STOP {
        sp_stop(pre, post)
    } else if op == OP_JUMPDEST {
        sp_jumpdest(pre, post)
    } else if op == OP_POP {
        sp_pop(pre, post)
    } else if op == OP_PC {
        sp_push_value(pre, post, GAS_BASE, pre.program_counter as nat)
    } else if op == OP_MSIZE {
        sp_push_value(pre, post, GAS_BASE, pre.memory@.len())
    } else if op == OP_GAS {
        sp_push_value(pre, post, GAS_BASE, spec_charge(pre.gas, GAS_BASE).0.remaining as nat)
    } else if OP_PUSH1 <= op && op <= OP_PUSH32 {
        sp_push_imm(pre, post, op)
    } else if OP_DUP1 <= op && op <= OP_DUP16 {
        sp_dup(pre, post, op)
    } else if OP_SWAP1 <= op && op <= OP_SWAP16 {
        sp_swap(pre, post, op)
    } else if op == OP_JUMP {
        sp_jump(pre, post)
    } else if op == OP_JUMPI {
        sp_jumpi(pre, post)
    } else if op == OP_RETURN {
        sp_return(pre, post, InstructionResult::Return)
    } else if op == OP_REVERT {
        sp_return(pre, post, InstructionResult::Revert)
    } else if op == OP_CALL {
        sp_call(pre, post)
    } else {
        sp_invalid(pre, post)
    }
}

impl Interpreter {
    /// Frame invariant: components well-formed, the cursor inside the
    /// padded buffer while running, and the recorded return range
    /// addressable.
    pub open spec fn wf(&self) -> bool {
        &&& self.contract.wf()
        &&& self.stack.wf()
        &&& self.gas.wf()
        &&& self.memory.wf()
        &&& (self.instruction_result == InstructionResult::Continue
            ==> self.program_counter < self.contract.bytecode.code().len())
        &&& (self.program_counter <= self.contract.bytecode.code().len())
        &&& (self.return_range_start != usize::MAX ==> self.return_range_start
            <= self.return_range_end <= self.memory@.len())
    }

    /// A fresh frame around a contract, with the whole gas budget, an
    /// empty stack and empty memory, no memory ceiling, starting at
    /// offset zero.
    pub fn new(contract: Contract, gas_limit: u64, is_static: bool) -> (r: Interpreter)
        requires
            contract.wf(),
        ensures
            r.wf(),
            r == (Interpreter {
                program_counter: 0,
                instruction_result: InstructionResult::Continue,
                gas: r.gas,
                memory: r.memory,
                stack: r.stack,
                return_data_buffer: r.return_data_buffer,
                return_range_start: 0,
                return_range_end: 0,
                is_static: is_static,
                call_depth: 0,
                nested_call_result: InstructionResult::Continue,
                contract: contract,
            }),
            r.gas.limit == gas_limit && r.gas.remaining == gas_limit && r.gas.refunded == 0,
            r.memory@ == Seq::<u8>::empty() && r.memory.spec_limit() == u64::MAX,
            r.stack@ == Seq::<Seq<u8>>::empty(),
            r.return_data_buffer@ == Seq::<u8>::empty(),
    {
        Interpreter {
            program_counter: 0,
            instruction_result: InstructionResult::Continue,
            gas: Gas::new(gas_limit),
            memory: Memory::new(),
            stack: Stack::new(),
            return_data_buffer: Vec::new(),
            return_range_start: 0,
            return_range_end: 0,
            is_static,
            call_depth: 0,
            nested_call_result: InstructionResult::Continue,
            contract,
        }
    }

    /// As [`Interpreter::new`], with a configured memory ceiling.
    pub fn new_with_memory_limit(
        contract: Contract,
        gas_limit: u64,
        is_static: bool,
        memory_limit: u64,
    ) -> (r: Interpreter)
        requires
            contract.wf(),
        ensures
            r.wf(),
            r.program_counter == 0,
            r.instruction_result == InstructionResult::Continue,
            r.gas.limit == gas_limit && r.gas.remaining == gas_limit && r.gas.refunded == 0,
            r.memory@ == Seq::<u8>::empty() && r.memory.spec_limit() == memory_limit,
            r.stack@ == Seq::<Seq<u8>>::empty(),
            r.return_data_buffer@ == Seq::<u8>::empty(),
            r.return_range_start == 0 && r.return_range_end == 0,
            r.is_static == is_static,
            r.call_depth == 0,
            r.nested_call_result == InstructionResult::Continue,
            r.contract == contract,
    {
        Interpreter {
            program_counter: 0,
            instruction_result: InstructionResult::Continue,
            gas: Gas::new(gas_limit),
            memory: Memory::new_with_limit(memory_limit),
            stack: Stack::new(),
            return_data_buffer: Vec::new(),
            return_range_start: 0,
            return_range_end: 0,
            is_static,
            call_depth: 0,
            nested_call_result: InstructionResult::Continue,
            contract,
        }
    }

    /// The opcode under the cursor.
    pub fn current_opcode(&self) -> (r: u8)
        requires
            self.program_counter < self.contract.bytecode.code().len(),
        ensures
            r == spec_fetched(*self),
    {
        self.contract.bytecode.opcode_at(self.program_counter)
    }

    /// The invocation context.
    pub fn contract(&self) -> (r: &Contract)
        ensures
            r == &self.contract,
    {
        &self.contract
    }

    /// The gas ledger.
    pub fn gas(&self) -> (r: &Gas)
        ensures
            r == &self.gas,
    {
        &self.gas
    }

    /// The frame's memory.
    pub fn memory(&self) -> (r: &Memory)
        ensures
            r == &self.memory,
    {
        &self.memory
    }

    /// The frame's operand stack.
    pub fn stack(&self) -> (r: &Stack)
        ensures
            r == &self.stack,
    {
        &self.stack
    }

    /// The cursor offset.
    pub fn program_counter(&self) -> (r: usize)
        ensures
            r == self.program_counter,
    {
        self.program_counter
    }

    /// Execute one instruction: fetch the opcode at the cursor, advance
    /// the cursor past it before dispatch — the stop padding makes this
    /// always safe — and apply the instruction, adopting whatever state
    /// it reports. The exact effect, opcode by opcode, is
    /// [`spec_step_post`]; a step that leaves the frame running always
    /// consumes gas.
    pub fn step<H: Host>(&mut self, host: &mut H)
        requires
            old(self).wf(),
            old(self).instruction_result == InstructionResult::Continue,
        ensures
            final(self).wf(),
            sp_frame(*old(self), *final(self)),
            spec_step_post(*old(self), *final(self)),
            final(self).gas.remaining <= old(self).gas.remaining,
            final(self).instruction_result == InstructionResult::Continue
                ==> final(self).gas.remaining < old(self).gas.remaining,
    {
        let ghost pre = *self;
        let pc0 = self.program_counter;
        let op = self.contract.bytecode.opcode_at(pc0);
        proof {
            // Every byte of the padding region is a stop byte, so any
            // other opcode was fetched from inside the original code
            // and the advanced cursor stays inside the padded buffer.
            if op != OP_STOP {
                assert(pc0 < self.contract.bytecode.original_len);
            }
        }
        self.program_counter = pc0 + 1;
        if op == OP_STOP {
            self.instruction_result = InstructionResult::Stop;
        } else if op == OP_JUMPDEST {
            if !self.gas.charge(GAS_JUMPDEST) {
                self.instruction_result = InstructionResult::OutOfGas;
            }
        } else if op == OP_POP {
            if !self.gas.charge(GAS_BASE) {
                self.instruction_result = InstructionResult::OutOfGas;
            } else {
                match self.stack.pop() {
                    Ok(_) => {},
                    Err(e) => {
                        self.instruction_result = e;
                    },
                }
            }
        } else if op == OP_PC {
            let w = Word::from_u64(pc0 as u64);
            self.instr_push_word(w, Ghost(pre));
        } else if op == OP_MSIZE {
            let w = Word::from_u64(self.memory.len() as u64);
            self.instr_push_word(w, Ghost(pre));
        } else if op == OP_GAS {
            if !self.gas.charge(GAS_BASE) {
                self.instruction_result = InstructionResult::OutOfGas;
            } else {
                let w = Word::from_u64(self.gas.remaining);
                match self.stack.push(w) {
                    Ok(()) => {},
                    Err(e) => {
                        self.instruction_result = e;
                    },
                }
            }
        } else if OP_PUSH1 <= op && op <= OP_PUSH32 {
            self.instr_push_imm(op, Ghost(pre));
        } else if OP_DUP1 <= op && op <= OP_DUP16 {
            self.instr_dup(op, Ghost(pre));
        } else if OP_SWAP1 <= op && op <= OP_SWAP16 {
            self.instr_swap(op, Ghost(pre));
        } else if op == OP_JUMP {
            self.instr_jump(Ghost(pre));
        } else if op == OP_JUMPI {
            self.instr_jumpi(Ghost(pre));
        } else if op == OP_RETURN {
            self.instr_return(InstructionResult::Return, Ghost(pre));
        } else if op == OP_REVERT {
            self.instr_return(InstructionResult::Revert, Ghost(pre));
        } else if op == OP_CALL {
            self.instr_call(host, Ghost(pre));
        } else {
            self.instruction_result = InstructionResult::InvalidOpcode;
        }
    }

    /// `PC` and `MSIZE`: charge the base cost and push `w`.
    fn instr_push_word(&mut self, w: Word, Ghost(pre): Ghost<Interpreter>)
        requires
            old(self).wf(),
            w.wf(),
            old(self).instruction_result == InstructionResult::Continue,
            old(self).gas == pre.gas,
            old(self).stack == pre.stack,
        ensures
            final(self).wf(),
            *final(self) == (Interpreter {
                instruction_result: final(self).instruction_result,
                gas: final(self).gas,
                stack: final(self).stack,
                ..*old(self)
            }),
            ({
                let (g, ok) = spec_charge(pre.gas, GAS_BASE);
                &&& final(self).gas == g
                &&& if !ok {
                    final(self).instruction_result == InstructionResult::OutOfGas
                        && final(self).stack@ == pre.stack@
                } else if pre.stack@.len() >= crate::STACK_LIMIT {
                    final(self).instruction_result == InstructionResult::StackOverflow
                        && final(self).stack@ == pre.stack@
                } else {
                    final(self).instruction_result == InstructionResult::Continue
                        && final(self).stack@ == pre.stack@.push(w@)
                }
            }),
    {
        if !self.gas.charge(GAS_BASE) {
            self.instruction_result = InstructionResult::OutOfGas;
        } else {
            match self.stack.push(w) {
                Ok(()) => {},
                Err(e) => {
                    self.instruction_result = e;
                },
            }
        }
    }

    /// A push instruction: read the operand from the code and push it.
    fn instr_push_imm(&mut self, op: u8, Ghost(pre): Ghost<Interpreter>)
        requires
            old(self).wf(),
            pre.wf(),
            pre.instruction_result == InstructionResult::Continue,
            OP_PUSH1 <= op && op <= OP_PUSH32,
            spec_fetched(pre) == op,
            *old(self) == (Interpreter {
                program_counter: (pre.program_counter + 1) as usize,
                ..pre
            }),
        ensures
            final(self).wf(),
            sp_frame(pre, *final(self)),
            sp_push_imm(pre, *final(self), op),
    {
        let n = (op - OP_PUSH1 + 1) as usize;
        proof {
            // The padding region holds stop bytes only, so a push opcode
            // sits in the original code and its operand fits the buffer.
            assert(pre.program_counter < pre.contract.bytecode.original_len);
        }
        if !self.gas.charge(GAS_VERYLOW) {
            self.instruction_result = InstructionResult::OutOfGas;
            return;
        }
        if self.stack.len() >= crate::STACK_LIMIT {
            self.instruction_result = InstructionResult::StackOverflow;
            return;
        }
        let imm = self.contract.bytecode.code_slice(self.program_counter, n);
        let w = Word::from_be_bytes(&imm);
        match self.stack.push(w) {
            Ok(()) => {},
            Err(_) => {
                proof {
                    assert(false);
                }
            },
        }
        self.program_counter = self.program_counter + n;
    }

    /// A duplicate instruction.
    fn instr_dup(&mut self, op: u8, Ghost(pre): Ghost<Interpreter>)
        requires
            old(self).wf(),
            pre.wf(),
            pre.instruction_result == InstructionResult::Continue,
            OP_DUP1 <= op && op <= OP_DUP16,
            *old(self) == (Interpreter {
                program_counter: (pre.program_counter + 1) as usize,
                ..pre
            }),
        ensures
            final(self).wf(),
            sp_frame(pre, *final(self)),
            sp_dup(pre, *final(self), op),
    {
        let k = (op - OP_DUP1 + 1) as usize;
        if !self.gas.charge(GAS_VERYLOW) {
            self.instruction_result = InstructionResult::OutOfGas;
            return;
        }
        match self.stack.peek(k - 1) {
            Ok(w) => {
                match self.stack.push(w) {
                    Ok(()) => {},
                    Err(e) => {
                        self.instruction_result = e;
                    },
                }
            },
            Err(e) => {
                self.instruction_result = e;
            },
        }
    }

    /// A swap instruction.
    fn instr_swap(&mut self, op: u8, Ghost(pre): Ghost<Interpreter>)
        requires
            old(self).wf(),
            pre.wf(),
            pre.instruction_result == InstructionResult::Continue,
            OP_SWAP1 <= op && op <= OP_SWAP16,
            *old(self) == (Interpreter {
                program_counter: (pre.program_counter + 1) as usize,
                ..pre
            }),
        ensures
            final(self).wf(),
            sp_frame(pre, *final(self)),
            sp_swap(pre, *final(self), op),
    {
        let k = (op - OP_SWAP1 + 1) as usize;
        if !self.gas.charge(GAS_VERYLOW) {
            self.instruction_result = InstructionResult::OutOfGas;
            return;
        }
        if self.stack.len() < k + 1 {
            self.instruction_result = InstructionResult::StackUnderflow;
            return;
        }
        let top = match self.stack.peek(0) {
            Ok(w) => w,
            Err(_) => {
                proof {
                    assert(false);
                }
                Word::zero()
            },
        };
        let below = match self.stack.peek(k) {
            Ok(w) => w,
            Err(_) => {
                proof {
                    assert(false);
                }
                Word::zero()
            },
        };
        match self.stack.set(0, below) {
            Ok(()) => {},
            Err(_) => {
                proof {
                    assert(false);
                }
            },
        }
        match self.stack.set(k, top) {
            Ok(()) => {},
            Err(_) => {
                proof {
                    assert(false);
                }
            },
        }
    }

    /// `JUMP`.
    fn instr_jump(&mut self, Ghost(pre): Ghost<Interpreter>)
        requires
            old(self).wf(),
            pre.wf(),
            pre.instruction_result == InstructionResult::Continue,
            *old(self) == (Interpreter {
                program_counter: (pre.program_counter + 1) as usize,
                ..pre
            }),
        ensures
            final(self).wf(),
            sp_frame(pre, *final(self)),
            sp_jump(pre, *final(self)),
    {
        if !self.gas.charge(GAS_MID) {
            self.instruction_result = InstructionResult::OutOfGas;
            return;
        }
        let target = match self.stack.pop() {
            Ok(w) => w,
            Err(e) => {
                self.instruction_result = e;
                return;
            },
        };
        self.do_jump(&target, Ghost(pre));
    }

    /// Shared tail of `JUMP` and a taken `JUMPI`: validate the target
    /// against the jump-destination set and move the cursor or fault.
    fn do_jump(&mut self, target: &Word, Ghost(pre): Ghost<Interpreter>)
        requires
            old(self).wf(),
            target.wf(),
            old(self).contract == pre.contract,
            old(self).instruction_result == InstructionResult::Continue,
        ensures
            final(self).wf(),
            *final(self) == (Interpreter {
                program_counter: final(self).program_counter,
                instruction_result: final(self).instruction_result,
                ..*old(self)
            }),
            ({
                let dests = spec_jump_dests(pre.contract.bytecode.orig());
                if dests.contains(be_val(target@)) {
                    final(self).instruction_result == InstructionResult::Continue
                        && final(self).program_counter == be_val(target@)
                } else {
                    final(self).instruction_result == InstructionResult::InvalidJump
                        && final(self).program_counter == old(self).program_counter
                }
            }),
    {
        proof {
            lemma_jump_dest_in_code(pre.contract.bytecode.orig(), be_val(target@));
        }
        match target.to_u64() {
            Some(t) => {
                if t <= usize::MAX as u64 {
                    let tu = t as usize;
                    if self.contract.bytecode.is_valid_jump_dest(tu) {
                        self.program_counter = tu;
                        proof {
                            assert(tu < pre.contract.bytecode.original_len);
                        }
                    } else {
                        self.instruction_result = InstructionResult::InvalidJump;
                    }
                } else {
                    self.instruction_result = InstructionResult::InvalidJump;
                }
            },
            None => {
                self.instruction_result = InstructionResult::InvalidJump;
            },
        }
    }

    /// `JUMPI`.
    fn instr_jumpi(&mut self, Ghost(pre): Ghost<Interpreter>)
        requires
            old(self).wf(),
            pre.wf(),
            pre.instruction_result == InstructionResult::Continue,
            *old(self) == (Interpreter {
                program_counter: (pre.program_counter + 1) as usize,
                ..pre
            }),
        ensures
            final(self).wf(),
            sp_frame(pre, *final(self)),
            sp_jumpi(pre, *final(self)),
    {
        if !self.gas.charge(GAS_HIGH) {
            self.instruction_result = InstructionResult::OutOfGas;
            return;
        }
        if self.stack.len() < 2 {
            self.instruction_result = InstructionResult::StackUnderflow;
            return;
        }
        let target = match self.stack.pop() {
            Ok(w) => w,
            Err(_) => {
                proof {
                    assert(false);
                }
                Word::zero()
            },
        };
        let cond = match self.stack.pop() {
            Ok(w) => w,
            Err(_) => {
                proof {
                    assert(false);
                }
                Word::zero()
            },
        };
        if cond.is_zero() {
            // fall through
        } else {
            self.do_jump(&target, Ghost(pre));
        }
    }

    /// `RETURN` and `REVERT`.
    fn instr_return(&mut self, r: InstructionResult, Ghost(pre): Ghost<Interpreter>)
        requires
            old(self).wf(),
            pre.wf(),
            pre.instruction_result == InstructionResult::Continue,
            r == InstructionResult::Return || r == InstructionResult::Revert,
            *old(self) == (Interpreter {
                program_counter: (pre.program_counter + 1) as usize,
                ..pre
            }),
        ensures
            final(self).wf(),
            sp_frame(pre, *final(self)),
            sp_return(pre, *final(self), r),
    {
        if self.stack.len() < 2 {
            self.instruction_result = InstructionResult::StackUnderflow;
            return;
        }
        let off_w = match self.stack.pop() {
            Ok(w) => w,
            Err(_) => {
                proof {
                    assert(false);
                }
                Word::zero()
            },
        };
        let len_w = match self.stack.pop() {
            Ok(w) => w,
            Err(_) => {
                proof {
                    assert(false);
                }
                Word::zero()
            },
        };
        if len_w.is_zero() {
            self.return_range_start = usize::MAX;
            self.return_range_end = usize::MAX;
            self.instruction_result = r;
            return;
        }
        let lv = match len_w.to_u64() {
            Some(v) => v,
            None => {
                self.instruction_result = InstructionResult::OutOfGas;
                return;
            },
        };
        let ov = match off_w.to_u64() {
            Some(v) => v,
            None => {
                self.instruction_result = InstructionResult::OutOfGas;
                return;
            },
        };
        if ov > u64::MAX - lv || ov + lv > usize::MAX as u64 {
            self.instruction_result = InstructionResult::OutOfGas;
            return;
        }
        let end = (ov + lv) as usize;
        let cost = match self.memory.grow_cost(end) {
            Ok(c) => c,
            Err(e) => {
                self.instruction_result = e;
                return;
            },
        };
        if !self.gas.charge(cost) {
            self.instruction_result = InstructionResult::OutOfGas;
            return;
        }
        match self.memory.resize_to(end) {
            Ok(_) => {},
            Err(_) => {
                proof {
                    assert(false);
                }
            },
        }
        self.return_range_start = ov as usize;
        self.return_range_end = end;
        self.instruction_result = r;
    }

    /// `CALL`.
    fn instr_call<H: Host>(&mut self, host: &mut H, Ghost(pre): Ghost<Interpreter>)
        requires
            old(self).wf(),
            pre.wf(),
            pre.instruction_result == InstructionResult::Continue,
            *old(self) == (Interpreter {
                program_counter: (pre.program_counter + 1) as usize,
                ..pre
            }),
        ensures
            final(self).wf(),
            sp_frame(pre, *final(self)),
            sp_call(pre, *final(self)),
            final(self).instruction_result == InstructionResult::Continue
                ==> final(self).gas.remaining < pre.gas.remaining,
    {
        if self.stack.len() < 7 {
            self.instruction_result = InstructionResult::StackUnderflow;
            return;
        }
        let value_peek = match self.stack.peek(2) {
            Ok(w) => w,
            Err(_) => {
                proof {
                    assert(false);
                }
                Word::zero()
            },
        };
        if self.is_static && !value_peek.is_zero() {
            self.instruction_result = InstructionResult::StaticCallViolation;
            return;
        }
        if !self.gas.charge(GAS_CALL_BASE) {
            self.instruction_result = InstructionResult::OutOfGas;
            return;
        }
        let gas_w = self.pop_must();
        let target = self.pop_must();
        let value = self.pop_must();
        let _in_off = self.pop_must();
        let _in_len = self.pop_must();
        let _out_off = self.pop_must();
        let _out_len = self.pop_must();
        proof {
            assert(self.stack@ =~= pre.stack@.subrange(0, pre.stack@.len() - 7));
        }
        if self.call_depth >= CALL_STACK_LIMIT {
            // Depth ceiling: refuse the nested call without consulting
            // the world; the parent sees an ordinary failed call.
            self.nested_call_result = InstructionResult::CallTooDeep;
            self.return_data_buffer = Vec::new();
            let zw = Word::zero();
            proof {
                assert(zw@ =~= zero_word());
            }
            match self.stack.push(zw) {
                Ok(()) => {},
                Err(_) => {
                    proof {
                        assert(false);
                    }
                },
            }
            return;
        }
        let fwd = match gas_w.to_u64() {
            Some(v) => {
                if v >= self.gas.remaining {
                    self.gas.remaining
                } else {
                    v
                }
            },
            None => self.gas.remaining,
        };
        proof {
            // A request past `u64::MAX` forwards everything, the same
            // as any affordable-or-larger request.
            assert(fwd == ({
                let req = be_val(pre.stack@[pre.stack@.len() - 1]);
                let g1 = spec_charge(pre.gas, GAS_CALL_BASE).0;
                if req >= g1.remaining { g1.remaining } else { req as u64 }
            }));
        }
        let charged = self.gas.charge(fwd);
        proof {
            assert(charged);
        }
        let outcome = host.call(CallInputs {
            target,
            value,
            gas_limit: fwd,
            depth: self.call_depth + 1,
            is_static: self.is_static,
        });
        let refund = if outcome.gas_remaining >= fwd {
            fwd
        } else {
            outcome.gas_remaining
        };
        self.gas.erase_cost(refund);
        self.nested_call_result = outcome.result;
        let ok_flag = match outcome.result {
            InstructionResult::Stop => true,
            InstructionResult::Return => true,
            _ => false,
        };
        self.return_data_buffer = outcome.output;
        let w = if ok_flag {
            Word::from_u64(1)
        } else {
            Word::zero()
        };
        match self.stack.push(w) {
            Ok(()) => {},
            Err(_) => {
                proof {
                    assert(false);
                }
            },
        }
    }

    /// Pop from a stack known to be nonempty.
    fn pop_must(&mut self) -> (w: Word)
        requires
            old(self).stack.wf(),
            old(self).stack@.len() > 0,
        ensures
            w.wf(),
            w@ == old(self).stack@.last(),
            final(self).stack.wf(),
            final(self).stack@ == old(self).stack@.drop_last(),
            *final(self) == (Interpreter { stack: final(self).stack, ..*old(self) }),
    {
        match self.stack.pop() {
            Ok(w) => w,
            Err(_) => {
                proof {
                    assert(false);
                }
                Word::zero()
            },
        }
    }

    /// Loop [`Interpreter::step`] until the frame reaches a terminal
    /// state, and report it. The final state is exactly what iterating
    /// the step relation produces: a chain of [`spec_step_post`] steps,
    /// every state before the last one still running — so the loop
    /// stops at the first terminal state the steps produce. Termination
    /// is guaranteed by the gas ledger: every continuing step consumes
    /// gas.
    pub fn run<H: Host>(&mut self, host: &mut H) -> (r: InstructionResult)
        requires
            old(self).wf(),
        ensures
            final(self).wf(),
            sp_frame(*old(self), *final(self)),
            final(self).gas.remaining <= old(self).gas.remaining,
            r == final(self).instruction_result,
            r.is_terminal(),
            exists|n: nat| spec_steps(*old(self), *final(self), n),
    {
        proof {
            assert(spec_steps(*old(self), *self, 0));
        }
        while self.instruction_result == InstructionResult::Continue
            invariant
                self.wf(),
                sp_frame(*old(self), *self),
                self.gas.remaining <= old(self).gas.remaining,
                exists|n: nat| spec_steps(*old(self), *self, n),
            decreases spec_run_phase(self.instruction_result), self.gas.remaining,
        {
            let ghost prev = *self;
            let ghost n0 = choose|n: nat| spec_steps(*old(self), prev, n);
            self.step(host);
            proof {
                lemma_steps_extend(*old(self), prev, *self, n0);
            }
        }
        self.instruction_result
    }

    /// As [`Interpreter::run`], wrapping each step with the world's
    /// `step` and `step_end` tracing hooks, either of which may
    /// short-circuit the run with its own terminal result. The hooks
    /// see the frame read-only, so the final state is still a chain of
    /// [`spec_step_post`] steps — possibly cut short, in which case the
    /// frame may still be running and the reported result is the
    /// hook's.
    pub fn run_inspect<H: Host>(&mut self, host: &mut H) -> (r: InstructionResult)
        requires
            old(self).wf(),
        ensures
            final(self).wf(),
            sp_frame(*old(self), *final(self)),
            final(self).gas.remaining <= old(self).gas.remaining,
            r.is_terminal(),
            exists|n: nat| spec_steps(*old(self), *final(self), n),
    {
        proof {
            assert(spec_steps(*old(self), *self, 0));
        }
        while self.instruction_result == InstructionResult::Continue
            invariant
                self.wf(),
                sp_frame(*old(self), *self),
                self.gas.remaining <= old(self).gas.remaining,
                exists|n: nat| spec_steps(*old(self), *self, n),
            decreases spec_run_phase(self.instruction_result), self.gas.remaining,
        {
            let ret = host.step(self, self.is_static);
            if ret.terminal() {
                return ret;
            }
            let ghost prev = *self;
            let ghost n0 = choose|n: nat| spec_steps(*old(self), prev, n);
            self.step(host);
            proof {
                lemma_steps_extend(*old(self), prev, *self, n0);
            }
            let ret = host.step_end(self, self.is_static, self.instruction_result);
            if ret.terminal() {
                return ret;
            }
        }
        self.instruction_result
    }

    /// Copy the frame's return bytes out of memory: the slice at the
    /// recorded return range, or nothing when the sentinel empty range
    /// is recorded.
    pub fn return_value(&self) -> (r: Vec<u8>)
        requires
            self.wf(),
        ensures
            self.return_range_start == usize::MAX ==> r@ == Seq::<u8>::empty(),
            self.return_range_start != usize::MAX ==> r@ == self.memory@.subrange(
                self.return_range_start as int,
                self.return_range_end as int,
            ),
    {
        if self.return_range_start == usize::MAX {
            Vec::new()
        } else {
            self.memory.read(
                self.return_range_start,
                self.return_range_end - self.return_range_start,
            )
        }
    }
}

/// The step relation iterated `n` times: `b` is reached from `a` by a
/// chain of [`spec_step_post`] steps, each taken from a state that was
/// still running and each preserving the frame-constant fields. This
/// is what [`Interpreter::run`] guarantees about its final state.
pub open spec fn spec_steps(a: Interpreter, b: Interpreter, n: nat) -> bool
    decreases n,
{
    if n == 0 {
        a == b
    } else {
        &&& a.instruction_result == InstructionResult::Continue
        &&& exists|mid: Interpreter| {
            &&& #[trigger] spec_step_post(a, mid)
            &&& sp_frame(a, mid)
            &&& spec_steps(mid, b, (n - 1) as nat)
        }
    }
}

/// A step chain followed by one more step is a longer step chain.
proof fn lemma_steps_extend(a: Interpreter, b: Interpreter, c: Interpreter, n: nat)
    requires
        spec_steps(a, b, n),
        b.instruction_result == InstructionResult::Continue,
        spec_step_post(b, c),
        sp_frame(b, c),
    ensures
        spec_steps(a, c, n + 1),
    decreases n,
{
    if n == 0 {
        assert(spec_steps(c, c, 0));
        assert(spec_step_post(a, c) && sp_frame(a, c) && spec_steps(c, c, 0));
    } else {
        let mid = choose|mid: Interpreter| {
            &&& #[trigger] spec_step_post(a, mid)
            &&& sp_frame(a, mid)
            &&& spec_steps(mid, b, (n - 1) as nat)
        };
        lemma_steps_extend(mid, b, c, (n - 1) as nat);
        assert(spec_step_post(a, mid) && sp_frame(a, mid)
            && spec_steps(mid, c, ((n + 1) - 1) as nat));
    }
}

/// Loop measure: running frames rank above stopped ones.
pub open spec fn spec_run_phase(r: InstructionResult) -> int {
    if r == InstructionResult::Continue {
        1
    } else {
        0
    }
}

/// A jump whose target byte lies inside a push instruction's immediate
/// operand always faults with `InvalidJump`, even if that byte's value
/// equals the jump-destination opcode: the analysis pass never marks an
/// operand byte, and the jump instruction trusts the analysis alone.
pub proof fn lemma_jump_into_push_data_faults(pre: Interpreter, post: Interpreter)
    requires
        pre.wf(),
        spec_fetched(pre) == OP_JUMP,
        pre.stack@.len() > 0,
        spec_charge(pre.gas, GAS_MID).1,
        crate::analysis::spec_in_push_data(
            pre.contract.bytecode.orig(), 0, be_val(pre.stack@.last())),
        sp_jump(pre, post),
    ensures
        post.instruction_result == InstructionResult::InvalidJump,
{
    crate::analysis::lemma_push_data_never_jump_dest(
        pre.contract.bytecode.orig(), 0, be_val(pre.stack@.last()));
}

/// A valid jump destination lies inside the original code.
proof fn lemma_jump_dest_in_code(code: Seq<u8>, t: nat)
    ensures
        spec_jump_dests(code).contains(t) ==> t < code.len(),
{
    crate::analysis::lemma_dests_bound(code, t);
}

} // verus!
