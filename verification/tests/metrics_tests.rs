use revm_core::metrics::cachedb::{
    get_record as get_cache_record, hit_record, miss_record, HitRecord, MissRecord,
};
use revm_core::metrics::instruction::{
    get_record, record, record_gas, start_record, InstructionRecorder,
};
use revm_core::metrics::types::{AccessStats, CacheDbRecord, Function, MissesPenalty, OpcodeRecord};

#[test]
fn opcode_record_default_is_empty() {
    let r = OpcodeRecord::default();
    assert!(!r.not_empty());
    assert_eq!(r.opcode_record.len(), 256);
    assert!(r.opcode_record.iter().all(|e| *e == (0, 0, 0)));
    assert_eq!(r.sload_opcode_record, vec![(1, 0), (10, 0), (100, 0), (u64::MAX, 0)]);
    assert_eq!(r.total_time, 0);
}

#[test]
fn sload_ladder_buckets_by_duration() {
    let mut r = OpcodeRecord::default();
    r.add_sload_opcode_record(0);
    r.add_sload_opcode_record(5);
    r.add_sload_opcode_record(9);
    r.add_sload_opcode_record(10);
    r.add_sload_opcode_record(99);
    r.add_sload_opcode_record(100);
    r.add_sload_opcode_record(u64::MAX - 1);
    let counts: Vec<u64> = r.sload_opcode_record.iter().map(|e| e.1).collect();
    assert_eq!(counts, vec![1, 2, 2, 2]);
}

#[test]
fn update_takes_tables_when_empty() {
    let mut a = OpcodeRecord::default();
    let mut b = OpcodeRecord::default();
    b.opcode_record[7] = (3, 40, 500);
    b.total_time = 90;
    b.is_updated = true;
    a.update(&mut b);
    assert!(a.is_updated);
    assert_eq!(a.opcode_record[7], (3, 40, 500));
    assert_eq!(a.total_time, 90);
    // The exchange handed the empty table back.
    assert_eq!(b.opcode_record[7], (0, 0, 0));
}

#[test]
fn update_sums_when_both_hold_data() {
    let mut a = OpcodeRecord::default();
    a.opcode_record[7] = (1, 10, 100);
    a.sload_opcode_record[2] = (100, 4);
    a.total_time = 5;
    a.is_updated = true;
    let mut b = OpcodeRecord::default();
    b.opcode_record[7] = (2, 20, -30);
    b.opcode_record[9] = (1, 1, 1);
    b.sload_opcode_record[2] = (100, 6);
    b.total_time = 7;
    b.is_updated = true;
    a.update(&mut b);
    assert_eq!(a.opcode_record[7], (3, 30, 70));
    assert_eq!(a.opcode_record[9], (1, 1, 1));
    assert_eq!(a.sload_opcode_record[2], (100, 10));
    assert_eq!(a.total_time, 12);
}

#[test]
fn update_ignores_empty_source() {
    let mut a = OpcodeRecord::default();
    a.opcode_record[3] = (5, 5, 5);
    a.is_updated = true;
    let mut b = OpcodeRecord::default();
    a.update(&mut b);
    assert_eq!(a.opcode_record[3], (5, 5, 5));
    assert!(!b.is_updated);
}

#[test]
fn recorder_counts_opcodes() {
    let mut rec = InstructionRecorder::new();
    start_record(&mut rec);
    record(&mut rec, 0x01);
    record(&mut rec, 0x01);
    record(&mut rec, 0x54);
    record_gas(&mut rec, 0x01, 6);
    let out = get_record(&mut rec);
    assert!(out.not_empty());
    assert_eq!(out.opcode_record[0x01].0, 2);
    assert_eq!(out.opcode_record[0x01].2, 6);
    assert_eq!(out.opcode_record[0x54].0, 1);
    let sload_total: u64 = out.sload_opcode_record.iter().map(|e| e.1).sum();
    assert_eq!(sload_total, 1);
    // Retrieval reset the recorder.
    assert!(!rec.started);
    assert!(!rec.record.not_empty());
}

#[test]
fn access_stats_update_and_totals() {
    let mut a = AccessStats::new();
    a.increment(Function::Basic);
    a.increment(Function::Basic);
    a.add(Function::Storage, 5);
    let mut b = AccessStats::new();
    b.increment(Function::LoadAccount);
    a.update(&b);
    assert_eq!(a.function, vec![2, 0, 5, 0, 1]);
    assert_eq!(a.total(), 8);
}

#[test]
fn penalty_percentile_buckets() {
    let mut p = MissesPenalty::new();
    p.percentile(500); // 0 us, 5th ns bucket
    p.percentile(3999); // 3 us, 39th ns bucket
    p.percentile(4000); // 4 us, no ns bucket
    p.percentile(1_000_000_000); // clamped to the last us bucket
    assert_eq!(p.us_percentile[0], 1);
    assert_eq!(p.us_percentile[3], 1);
    assert_eq!(p.us_percentile[4], 1);
    assert_eq!(p.us_percentile[199], 1);
    assert_eq!(p.ns_percentile[5], 1);
    assert_eq!(p.ns_percentile[39], 1);
    let ns_total: u64 = p.ns_percentile.iter().sum();
    assert_eq!(ns_total, 2);
}

#[test]
fn cachedb_record_counts_hits_and_misses() {
    let mut rec = CacheDbRecord::new();
    hit_record(&mut rec, Function::Basic);
    hit_record(&mut rec, Function::Storage);
    miss_record(&mut rec, Function::Basic, 1500);
    assert_eq!(rec.hit_stats().function, vec![1, 0, 1, 0, 0]);
    assert_eq!(rec.miss_stats().function, vec![1, 0, 0, 0, 0]);
    assert_eq!(rec.penalty_stats().time.function, vec![1500, 0, 0, 0, 0]);
    assert_eq!(rec.access_count().function, vec![2, 0, 1, 0, 0]);
    assert_eq!(rec.total_in_basic(), 2);
    assert_eq!(rec.total_in_storage(), 1);
    assert_eq!(rec.total_in_code_by_hash(), 0);
    assert_eq!(rec.total_in_block_hash(), 0);
    assert_eq!(rec.total_in_load_account(), 0);
    assert_eq!(rec.total_hits(), 2);
    assert_eq!(rec.total_miss(), 1);
    assert_eq!(rec.total_penalty_times(), 1500);
    // The percentile distribution counted the one miss.
    assert_eq!(rec.penalty_stats().us_percentile[1], 1);
}

#[test]
fn cachedb_update_merges() {
    let mut a = CacheDbRecord::new();
    hit_record(&mut a, Function::Basic);
    let mut b = CacheDbRecord::new();
    hit_record(&mut b, Function::Basic);
    miss_record(&mut b, Function::BlockHash, 10);
    a.update(&b);
    assert_eq!(a.hit_stats().function, vec![2, 0, 0, 0, 0]);
    assert_eq!(a.miss_stats().function, vec![0, 0, 0, 1, 0]);
}

#[test]
fn cachedb_get_record_resets() {
    let mut rec = CacheDbRecord::new();
    hit_record(&mut rec, Function::CodeByHash);
    let out = get_cache_record(&mut rec);
    assert_eq!(out.hit_stats().function, vec![0, 1, 0, 0, 0]);
    assert_eq!(rec.total_hits(), 0);
    assert_eq!(rec.total_miss(), 0);
}

#[test]
fn scoped_hit_and_miss_records() {
    let mut rec = CacheDbRecord::new();
    let hit = HitRecord::new(Function::LoadAccount);
    hit.record_into(&mut rec);
    let miss = MissRecord::new(Function::Storage);
    miss.record_into(&mut rec);
    assert_eq!(rec.hit_stats().function, vec![0, 0, 0, 0, 1]);
    assert_eq!(rec.miss_stats().function, vec![0, 0, 1, 0, 0]);
}
