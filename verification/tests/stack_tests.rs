use revm_core::result::InstructionResult;
use revm_core::stack::Stack;
use revm_core::word::Word;

#[test]
fn push_pop_reverse_order() {
    let mut stack = Stack::new();
    for i in 0..1024u64 {
        assert!(stack.push(Word::from_u64(i)).is_ok());
    }
    assert_eq!(stack.len(), 1024);
    for i in (0..1024u64).rev() {
        let w = stack.pop().expect("pop should succeed");
        assert_eq!(w.to_u64(), Some(i));
    }
    assert_eq!(stack.len(), 0);
}

#[test]
fn push_beyond_capacity_overflows() {
    let mut stack = Stack::new();
    for i in 0..1024u64 {
        assert!(stack.push(Word::from_u64(i)).is_ok());
    }
    let r = stack.push(Word::from_u64(9999));
    assert_eq!(r, Err(InstructionResult::StackOverflow));
    assert_eq!(stack.len(), 1024);
}

#[test]
fn pop_empty_underflows() {
    let mut stack = Stack::new();
    match stack.pop() {
        Err(e) => assert_eq!(e, InstructionResult::StackUnderflow),
        Ok(_) => panic!("pop on empty stack must fail"),
    }
}

#[test]
fn peek_indexes_from_top() {
    let mut stack = Stack::new();
    stack.push(Word::from_u64(10)).unwrap();
    stack.push(Word::from_u64(20)).unwrap();
    stack.push(Word::from_u64(30)).unwrap();
    assert_eq!(stack.peek(0).unwrap().to_u64(), Some(30));
    assert_eq!(stack.peek(1).unwrap().to_u64(), Some(20));
    assert_eq!(stack.peek(2).unwrap().to_u64(), Some(10));
    assert_eq!(stack.peek(3).unwrap_err(), InstructionResult::StackUnderflow);
}

#[test]
fn set_overwrites_below_top() {
    let mut stack = Stack::new();
    stack.push(Word::from_u64(1)).unwrap();
    stack.push(Word::from_u64(2)).unwrap();
    stack.set(1, Word::from_u64(7)).unwrap();
    assert_eq!(stack.peek(1).unwrap().to_u64(), Some(7));
    assert_eq!(stack.peek(0).unwrap().to_u64(), Some(2));
    assert_eq!(stack.set(5, Word::zero()).unwrap_err(), InstructionResult::StackUnderflow);
}
