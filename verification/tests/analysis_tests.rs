use revm_core::analysis::{analyze, OP_JUMPDEST, OP_PUSH1, OP_STOP};
use revm_core::contract::{Address, Contract};
use revm_core::result::InstructionResult;
use revm_core::word::Word;
use revm_core::MAX_INITCODE_SIZE;

#[test]
fn analyze_pads_with_stop_bytes() {
    let code = vec![OP_JUMPDEST, OP_STOP];
    let locked = analyze(code);
    assert_eq!(locked.orig_len(), 2);
    assert_eq!(locked.len(), 2 + 33);
    for pc in 2..locked.len() {
        assert_eq!(locked.opcode_at(pc), OP_STOP);
    }
}

#[test]
fn jumpdest_at_boundary_is_marked() {
    let code = vec![OP_JUMPDEST, OP_STOP, OP_JUMPDEST];
    let locked = analyze(code);
    assert!(locked.is_valid_jump_dest(0));
    assert!(!locked.is_valid_jump_dest(1));
    assert!(locked.is_valid_jump_dest(2));
    assert!(!locked.is_valid_jump_dest(3));
}

#[test]
fn jumpdest_byte_inside_push_operand_is_not_marked() {
    // PUSH1 0x5b: the operand byte equals the jump-destination opcode
    // but lies inside the immediate, so it must never be marked.
    let code = vec![OP_PUSH1, OP_JUMPDEST, OP_JUMPDEST];
    let locked = analyze(code);
    assert!(!locked.is_valid_jump_dest(0));
    assert!(!locked.is_valid_jump_dest(1));
    assert!(locked.is_valid_jump_dest(2));
}

#[test]
fn push32_operand_is_skipped_wholesale() {
    let mut code = vec![0x7f]; // PUSH32
    code.extend(std::iter::repeat(OP_JUMPDEST).take(32));
    code.push(OP_JUMPDEST);
    let locked = analyze(code);
    for pc in 0..33 {
        assert!(!locked.is_valid_jump_dest(pc));
    }
    assert!(locked.is_valid_jump_dest(33));
}

#[test]
fn trailing_stop_does_not_shift_jump_dests() {
    // Code that already ends in the stop byte analyzes to the same
    // destination offsets as the same code with more stop bytes behind.
    let code = vec![OP_JUMPDEST, OP_PUSH1, 0x5b, OP_JUMPDEST, OP_STOP];
    let mut padded = code.clone();
    padded.push(OP_STOP);
    padded.push(OP_STOP);
    let a = analyze(code);
    let b = analyze(padded);
    for pc in 0..a.orig_len() {
        assert_eq!(a.is_valid_jump_dest(pc), b.is_valid_jump_dest(pc));
    }
}

#[test]
fn truncated_trailing_push_is_handled() {
    // A push whose operand overhangs the end of the code.
    let code = vec![OP_JUMPDEST, OP_PUSH1];
    let locked = analyze(code);
    assert!(locked.is_valid_jump_dest(0));
    assert!(!locked.is_valid_jump_dest(1));
    assert!(!locked.is_valid_jump_dest(2));
}

#[test]
fn oversized_initcode_is_rejected() {
    let code = vec![OP_STOP; MAX_INITCODE_SIZE + 1];
    let r = Contract::new_raw(Vec::new(), code, Address::zero(), Address::zero(), Word::zero());
    match r {
        Err(e) => assert_eq!(e, InstructionResult::CodeSizeLimit),
        Ok(_) => panic!("oversized initcode must be rejected"),
    }
    let code2 = vec![OP_STOP; MAX_INITCODE_SIZE];
    assert!(Contract::new_raw(Vec::new(), code2, Address::zero(), Address::zero(), Word::zero())
        .is_ok());
}
