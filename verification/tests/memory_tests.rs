use revm_core::memory::Memory;
use revm_core::result::InstructionResult;

#[test]
fn resize_rounds_up_and_zero_fills() {
    let mut m = Memory::new();
    assert_eq!(m.len(), 0);
    let added = m.resize_to(1).expect("growth within no ceiling");
    assert_eq!(added, 1);
    assert_eq!(m.len(), 32);
    // A resized-but-unwritten region reads as zero bytes.
    let bytes = m.read(0, 32);
    assert!(bytes.iter().all(|b| *b == 0));
}

#[test]
fn resize_is_idempotent() {
    let mut m = Memory::new();
    assert_eq!(m.resize_to(40).unwrap(), 2);
    assert_eq!(m.len(), 64);
    // Resizing again to the same rounded length bills nothing.
    assert_eq!(m.resize_to(40).unwrap(), 0);
    assert_eq!(m.resize_to(64).unwrap(), 0);
    assert_eq!(m.len(), 64);
    // Growing past it bills only the difference.
    assert_eq!(m.resize_to(65).unwrap(), 1);
    assert_eq!(m.len(), 96);
}

#[test]
fn write_then_read_round_trips() {
    let mut m = Memory::new();
    m.resize_to(64).unwrap();
    let data = vec![1u8, 2, 3, 4, 5];
    m.write(10, &data);
    assert_eq!(m.read(10, 5), data);
    // Neighbouring bytes stay zero.
    assert_eq!(m.read(9, 1), vec![0u8]);
    assert_eq!(m.read(15, 1), vec![0u8]);
}

#[test]
fn ceiling_fails_growth_distinctly() {
    let mut m = Memory::new_with_limit(64);
    assert!(m.resize_to(64).is_ok());
    let r = m.resize_to(65);
    assert_eq!(r, Err(InstructionResult::MemoryLimitExceeded));
    // Nothing was mutated by the refused growth.
    assert_eq!(m.len(), 64);
}

#[test]
fn grow_cost_is_linear_plus_quadratic() {
    let m = Memory::new();
    // One word: 3 * 1 + 1 * 1 / 512 = 3.
    assert_eq!(m.grow_cost(32).unwrap(), 3);
    // 1024 words: 3 * 1024 + 1024 * 1024 / 512 = 3072 + 2048.
    assert_eq!(m.grow_cost(32768).unwrap(), 5120);
    let mut m2 = Memory::new();
    m2.resize_to(32).unwrap();
    // Growth is billed only for the new words.
    assert_eq!(m2.grow_cost(64).unwrap(), 3);
    assert_eq!(m2.grow_cost(32).unwrap(), 0);
}
