use revm_core::contract::{Address, Contract};
use revm_core::host::{CallInputs, CallOutcome, Host};
use revm_core::interpreter::Interpreter;
use revm_core::result::InstructionResult;
use revm_core::word::Word;

/// A world that is never consulted: reaching it fails the test.
struct PanicHost;

impl Host for PanicHost {
    fn step(&mut self, _interp: &Interpreter, _is_static: bool) -> InstructionResult {
        InstructionResult::Continue
    }
    fn step_end(
        &mut self,
        _interp: &Interpreter,
        _is_static: bool,
        _result: InstructionResult,
    ) -> InstructionResult {
        InstructionResult::Continue
    }
    fn call(&mut self, _inputs: CallInputs) -> CallOutcome {
        panic!("the world must not be consulted by this program");
    }
    fn create(&mut self, _inputs: CallInputs) -> CallOutcome {
        panic!("the world must not be consulted by this program");
    }
}

fn build(code: Vec<u8>, gas: u64) -> Interpreter {
    let contract =
        Contract::new_raw(Vec::new(), code, Address::zero(), Address::zero(), Word::zero())
            .expect("code within the size ceiling");
    Interpreter::new(contract, gas, false)
}

#[test]
fn empty_code_stops_immediately() {
    let mut interp = build(vec![], 10);
    let r = interp.run(&mut PanicHost);
    assert_eq!(r, InstructionResult::Stop);
    assert_eq!(interp.gas().remaining, 10);
}

#[test]
fn two_pushes_and_return_leave_gas_minus_push_costs() {
    // PUSH1 0x00, PUSH1 0x00, RETURN: empty output, and the only gas
    // spent is the two push costs — a zero-length return range needs
    // no memory growth and costs nothing.
    let mut interp = build(vec![0x60, 0x00, 0x60, 0x00, 0xf3], 100);
    let r = interp.run(&mut PanicHost);
    assert_eq!(r, InstructionResult::Return);
    assert_eq!(interp.return_value().len(), 0);
    assert_eq!(interp.gas().remaining, 100 - 3 - 3);
}

#[test]
fn single_invalid_opcode_keeps_gas() {
    let mut interp = build(vec![0xfe], 50);
    let r = interp.run(&mut PanicHost);
    assert_eq!(r, InstructionResult::InvalidOpcode);
    assert_eq!(interp.gas().remaining, 50);
    assert_eq!(interp.return_value().len(), 0);
    assert_eq!(interp.stack().len(), 0);
}

#[test]
fn return_with_length_grows_memory_and_yields_zeros() {
    // PUSH1 0x20 (length), PUSH1 0x00 (offset), RETURN.
    let mut interp = build(vec![0x60, 0x20, 0x60, 0x00, 0xf3], 100);
    let r = interp.run(&mut PanicHost);
    assert_eq!(r, InstructionResult::Return);
    let out = interp.return_value();
    assert_eq!(out.len(), 32);
    assert!(out.iter().all(|b| *b == 0));
    // Two pushes plus one word of memory growth (3 gas).
    assert_eq!(interp.gas().remaining, 100 - 3 - 3 - 3);
}

#[test]
fn revert_preserves_output_path() {
    let mut interp = build(vec![0x60, 0x00, 0x60, 0x00, 0xfd], 100);
    let r = interp.run(&mut PanicHost);
    assert_eq!(r, InstructionResult::Revert);
    assert_eq!(interp.return_value().len(), 0);
}

#[test]
fn jump_to_jumpdest_continues() {
    // PUSH1 4, JUMP, STOP, JUMPDEST — jump over the stop byte.
    let mut interp = build(vec![0x60, 0x04, 0x56, 0x00, 0x5b], 100);
    let r = interp.run(&mut PanicHost);
    assert_eq!(r, InstructionResult::Stop);
    // PUSH 3 + JUMP 8 + JUMPDEST 1.
    assert_eq!(interp.gas().remaining, 100 - 12);
}

#[test]
fn jump_into_push_operand_faults() {
    // PUSH1 4, JUMP, PUSH1 0x5b: offset 4 holds the jump-destination
    // opcode's byte value but sits inside the push operand.
    let mut interp = build(vec![0x60, 0x04, 0x56, 0x60, 0x5b], 100);
    let r = interp.run(&mut PanicHost);
    assert_eq!(r, InstructionResult::InvalidJump);
}

#[test]
fn jump_to_non_dest_faults() {
    let mut interp = build(vec![0x60, 0x03, 0x56, 0x00], 100);
    let r = interp.run(&mut PanicHost);
    assert_eq!(r, InstructionResult::InvalidJump);
}

#[test]
fn jumpi_takes_and_falls_through() {
    // PUSH1 1 (condition), PUSH1 6 (target), JUMPI, INVALID, JUMPDEST.
    let mut taken = build(vec![0x60, 0x01, 0x60, 0x06, 0x57, 0xfe, 0x5b], 100);
    assert_eq!(taken.run(&mut PanicHost), InstructionResult::Stop);
    // With a zero condition the invalid byte is reached.
    let mut fell = build(vec![0x60, 0x00, 0x60, 0x06, 0x57, 0xfe, 0x5b], 100);
    assert_eq!(fell.run(&mut PanicHost), InstructionResult::InvalidOpcode);
}

#[test]
fn push_out_of_gas_fails_closed() {
    let mut interp = build(vec![0x60, 0x00], 2);
    let r = interp.run(&mut PanicHost);
    assert_eq!(r, InstructionResult::OutOfGas);
    assert_eq!(interp.gas().remaining, 2);
}

#[test]
fn stack_instructions_cooperate() {
    // PUSH1 7, DUP1, POP, PC, POP, MSIZE, POP, GAS, POP, STOP.
    let code = vec![0x60, 0x07, 0x80, 0x50, 0x58, 0x50, 0x59, 0x50, 0x5a, 0x50, 0x00];
    let mut interp = build(code, 1000);
    assert_eq!(interp.run(&mut PanicHost), InstructionResult::Stop);
    assert_eq!(interp.stack().len(), 1);
    assert_eq!(interp.stack().peek(0).unwrap().to_u64(), Some(7));
}

#[test]
fn swap_exchanges_entries() {
    // PUSH1 1, PUSH1 2, SWAP1, STOP.
    let mut interp = build(vec![0x60, 0x01, 0x60, 0x02, 0x90, 0x00], 100);
    assert_eq!(interp.run(&mut PanicHost), InstructionResult::Stop);
    assert_eq!(interp.stack().peek(0).unwrap().to_u64(), Some(1));
    assert_eq!(interp.stack().peek(1).unwrap().to_u64(), Some(2));
}

#[test]
fn stack_underflow_faults() {
    let mut interp = build(vec![0x50], 100); // POP on empty stack
    let r = interp.run(&mut PanicHost);
    assert_eq!(r, InstructionResult::StackUnderflow);
    assert!(r.fault());
    assert!(r.terminal());
    assert!(!InstructionResult::Stop.fault());
    assert!(!InstructionResult::Revert.fault());
    assert!(!InstructionResult::Continue.terminal());
    assert!(InstructionResult::CallTooDeep.fault());
}

/// The program of one call-chain frame: seven zero arguments except a
/// huge gas word, then CALL, then STOP.
fn call_program() -> Vec<u8> {
    let mut code = Vec::new();
    for _ in 0..6 {
        code.push(0x60);
        code.push(0x00);
    }
    // Gas argument: a push of four 0xff bytes, far more than any frame
    // will have, so each frame forwards everything it can spare.
    code.push(0x63);
    code.extend([0xff, 0xff, 0xff, 0xff]);
    code.push(0xf1); // CALL
    code.push(0x00); // STOP
    code
}

/// A world whose nested-call entry point runs a real nested frame of
/// the same program, recording what each depth reported.
struct ChainHost {
    frames_entered: u64,
    innermost_nested_result: Option<InstructionResult>,
    innermost_flag: Option<u64>,
}

impl Host for ChainHost {
    fn step(&mut self, _interp: &Interpreter, _is_static: bool) -> InstructionResult {
        InstructionResult::Continue
    }
    fn step_end(
        &mut self,
        _interp: &Interpreter,
        _is_static: bool,
        _result: InstructionResult,
    ) -> InstructionResult {
        InstructionResult::Continue
    }
    fn call(&mut self, inputs: CallInputs) -> CallOutcome {
        self.frames_entered += 1;
        let contract = Contract::new_raw(
            Vec::new(),
            call_program(),
            Address::zero(),
            Address::zero(),
            Word::zero(),
        )
        .unwrap();
        let mut nested = Interpreter::new(contract, inputs.gas_limit, inputs.is_static);
        nested.call_depth = inputs.depth;
        let result = nested.run(self);
        if nested.nested_call_result == InstructionResult::CallTooDeep {
            self.innermost_nested_result = Some(nested.nested_call_result);
            self.innermost_flag = nested.stack().peek(0).ok().and_then(|w| w.to_u64());
        }
        CallOutcome {
            result,
            gas_remaining: nested.gas().remaining,
            output: nested.return_value(),
        }
    }
    fn create(&mut self, _inputs: CallInputs) -> CallOutcome {
        panic!("creation is not part of this chain");
    }
}

#[test]
fn call_chain_of_depth_1025_faults_only_innermost() {
    let contract = Contract::new_raw(
        Vec::new(),
        call_program(),
        Address::zero(),
        Address::zero(),
        Word::zero(),
    )
    .unwrap();
    let mut outer = Interpreter::new(contract, 1_000_000, false);
    let mut host = ChainHost {
        frames_entered: 0,
        innermost_nested_result: None,
        innermost_flag: None,
    };
    let r = outer.run(&mut host);
    // The outermost frame terminates normally, not with a fault.
    assert_eq!(r, InstructionResult::Stop);
    // Frames at depths 1 through 1024 actually ran: 1025 in total with
    // the outermost one.
    assert_eq!(host.frames_entered, 1024);
    // The innermost frame saw its nested call refused as CallTooDeep,
    // and observed it as an ordinary failed call: a zero on the stack.
    assert_eq!(host.innermost_nested_result, Some(InstructionResult::CallTooDeep));
    assert_eq!(host.innermost_flag, Some(0));
}

#[test]
fn call_at_depth_ceiling_is_refused_without_the_world() {
    let contract = Contract::new_raw(
        Vec::new(),
        call_program(),
        Address::zero(),
        Address::zero(),
        Word::zero(),
    )
    .unwrap();
    let mut interp = Interpreter::new(contract, 10_000, false);
    interp.call_depth = 1024;
    // PanicHost proves the world is never consulted at the ceiling.
    let r = interp.run(&mut PanicHost);
    assert_eq!(r, InstructionResult::Stop);
    assert_eq!(interp.nested_call_result, InstructionResult::CallTooDeep);
    assert_eq!(interp.stack().peek(0).unwrap().to_u64(), Some(0));
    assert_eq!(interp.return_data_buffer.len(), 0);
}

#[test]
fn value_transfer_in_static_context_faults() {
    // Like the chain program but with a nonzero value argument.
    let mut code = Vec::new();
    code.extend([0x60, 0x00, 0x60, 0x00, 0x60, 0x00, 0x60, 0x00]); // out/in args
    code.extend([0x60, 0x01]); // value = 1
    code.extend([0x60, 0x00]); // target
    code.extend([0x60, 0xff]); // gas
    code.push(0xf1);
    code.push(0x00);
    let contract = Contract::new_raw(
        Vec::new(),
        code,
        Address::zero(),
        Address::zero(),
        Word::zero(),
    )
    .unwrap();
    let mut interp = Interpreter::new(contract, 10_000, true);
    let r = interp.run(&mut PanicHost);
    assert_eq!(r, InstructionResult::StaticCallViolation);
}

#[test]
fn successful_call_reports_world_outcome() {
    struct OkHost;
    impl Host for OkHost {
        fn step(&mut self, _i: &Interpreter, _s: bool) -> InstructionResult {
            InstructionResult::Continue
        }
        fn step_end(
            &mut self,
            _i: &Interpreter,
            _s: bool,
            _r: InstructionResult,
        ) -> InstructionResult {
            InstructionResult::Continue
        }
        fn call(&mut self, inputs: CallInputs) -> CallOutcome {
            CallOutcome {
                result: InstructionResult::Return,
                gas_remaining: inputs.gas_limit,
                output: vec![0xaa, 0xbb],
            }
        }
        fn create(&mut self, _inputs: CallInputs) -> CallOutcome {
            panic!("creation is not exercised here");
        }
    }
    let contract = Contract::new_raw(
        Vec::new(),
        call_program(),
        Address::zero(),
        Address::zero(),
        Word::zero(),
    )
    .unwrap();
    let mut interp = Interpreter::new(contract, 10_000, false);
    let r = interp.run(&mut OkHost);
    assert_eq!(r, InstructionResult::Stop);
    assert_eq!(interp.nested_call_result, InstructionResult::Return);
    assert_eq!(interp.return_data_buffer, vec![0xaa, 0xbb]);
    // The nested frame returned all forwarded gas, so only the push
    // costs and the call base cost were spent.
    assert_eq!(interp.gas().remaining, 10_000 - 7 * 3 - 100);
    assert_eq!(interp.stack().peek(0).unwrap().to_u64(), Some(1));
}

#[test]
fn run_inspect_can_short_circuit() {
    struct HaltingHost {
        steps: u64,
    }
    impl Host for HaltingHost {
        fn step(&mut self, _i: &Interpreter, _s: bool) -> InstructionResult {
            self.steps += 1;
            if self.steps > 2 {
                InstructionResult::Stop
            } else {
                InstructionResult::Continue
            }
        }
        fn step_end(
            &mut self,
            _i: &Interpreter,
            _s: bool,
            _r: InstructionResult,
        ) -> InstructionResult {
            InstructionResult::Continue
        }
        fn call(&mut self, _inputs: CallInputs) -> CallOutcome {
            panic!("no calls in this program");
        }
        fn create(&mut self, _inputs: CallInputs) -> CallOutcome {
            panic!("no creation in this program");
        }
    }
    // A loop: JUMPDEST, PUSH1 0, JUMP — would spin until out of gas.
    let mut interp = build(vec![0x5b, 0x60, 0x00, 0x56], 1_000_000);
    let mut host = HaltingHost { steps: 0 };
    let r = interp.run_inspect(&mut host);
    assert_eq!(r, InstructionResult::Stop);
    // The inspected frame itself was still running when cut short.
    assert_eq!(interp.instruction_result, InstructionResult::Continue);
}

#[test]
fn memory_ceiling_faults_return() {
    // PUSH1 0x40 (length), PUSH1 0x00 (offset), RETURN with a 32-byte
    // memory ceiling.
    let contract = Contract::new_raw(
        Vec::new(),
        vec![0x60, 0x40, 0x60, 0x00, 0xf3],
        Address::zero(),
        Address::zero(),
        Word::zero(),
    )
    .unwrap();
    let mut interp = Interpreter::new_with_memory_limit(contract, 1000, false, 32);
    let r = interp.run(&mut PanicHost);
    assert_eq!(r, InstructionResult::MemoryLimitExceeded);
    assert_eq!(interp.memory().len(), 0);
}
