use revm_core::contract::Address;
use revm_core::log::Log;
use revm_core::time_utils::TimeRecorder;
use revm_core::word::Word;

#[test]
fn elapsed_keeps_the_anchor() {
    let mut tr = TimeRecorder::now();
    let anchor = tr.now;
    let a = tr.elapsed();
    let b = tr.elapsed();
    assert_eq!(a.start, anchor);
    assert_eq!(b.start, anchor);
    assert!(a.start <= a.end);
    let _ = a.to_cycles();
}

#[test]
fn record_next_time_moves_the_anchor() {
    let mut tr = TimeRecorder::now();
    let first = tr.record_next_time();
    let second = tr.record_next_time();
    assert_eq!(second.start, first.end);
    assert!(first.start <= first.end);
    assert!(second.to_cycles() <= u64::MAX);
}

#[test]
fn log_size_counts_topics() {
    let log = Log {
        address: Address::zero(),
        topics: vec![Word::zero(), Word::from_u64(5), Word::from_u64(9)],
        data: vec![1, 2, 3],
    };
    assert_eq!(log.size(), 3 * 32 + core::mem::size_of::<Log>());
    let empty = Log { address: Address::zero(), topics: Vec::new(), data: Vec::new() };
    assert_eq!(empty.size(), core::mem::size_of::<Log>());
}

#[test]
fn words_convert_between_forms() {
    assert_eq!(Word::zero().to_u64(), Some(0));
    assert_eq!(Word::from_u64(u64::MAX).to_u64(), Some(u64::MAX));
    assert_eq!(Word::from_u64(0x0102_0304).to_u64(), Some(0x0102_0304));
    let w = Word::from_be_bytes(&vec![0x01, 0x00]);
    assert_eq!(w.to_u64(), Some(256));
    assert!(w.eq_word(&Word::from_u64(256)));
    let big = Word::from_be_bytes(&vec![0xff; 32]);
    assert_eq!(big.to_u64(), None);
    assert!(!big.is_zero());
    assert!(Word::zero().is_zero());
}
