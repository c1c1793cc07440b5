use market_ingest::bulk::insert_batch;
use market_ingest::memstore::{MemorySink, OfflineSink, PoisonSink};

#[test]
fn empty_batch_returns_zero_and_makes_no_calls() {
    let mut sink: MemorySink<u64> = MemorySink::new();
    let r = insert_batch(&mut sink, Vec::new(), 10).unwrap();
    assert_eq!(r.0, 0);
    assert!(r.1.is_empty());
    assert_eq!(sink.attempts, 0);
    assert!(sink.rows.is_empty());
}

#[test]
fn healthy_batch_inserts_all_in_order_with_ceil_calls() {
    let mut sink: MemorySink<u64> = MemorySink::new();
    let records = vec![10u64, 20, 30, 40, 50];
    let r = insert_batch(&mut sink, records.clone(), 2).unwrap();
    assert_eq!(r.0, 5);
    assert!(r.1.is_empty());
    assert_eq!(sink.rows, records);
    // ceil(5 / 2) calls
    assert_eq!(sink.attempts, 3);
}

#[test]
fn healthy_batch_smaller_than_chunk_takes_one_call() {
    let mut sink: MemorySink<u64> = MemorySink::new();
    let r = insert_batch(&mut sink, vec![1u64, 2, 3], 100).unwrap();
    assert_eq!(r.0, 3);
    assert!(r.1.is_empty());
    assert_eq!(sink.attempts, 1);
}

#[test]
fn single_poison_is_isolated_and_healthy_records_survive() {
    let mut sink = PoisonSink::new(7);
    let records = vec![1u64, 2, 7, 3, 4];
    let r = insert_batch(&mut sink, records, 4).unwrap();
    assert_eq!(r.0, 4);
    assert_eq!(r.1, vec![2usize]);
    assert_eq!(sink.rows, vec![1u64, 2, 3, 4]);
}

#[test]
fn poison_at_front_and_back() {
    let mut sink = PoisonSink::new(9);
    let r = insert_batch(&mut sink, vec![9u64, 1, 2, 3], 4).unwrap();
    assert_eq!(r.0, 3);
    assert_eq!(r.1, vec![0usize]);
    assert_eq!(sink.rows, vec![1u64, 2, 3]);

    let mut sink = PoisonSink::new(9);
    let r = insert_batch(&mut sink, vec![1u64, 2, 3, 9], 4).unwrap();
    assert_eq!(r.0, 3);
    assert_eq!(r.1, vec![3usize]);
    assert_eq!(sink.rows, vec![1u64, 2, 3]);
}

#[test]
fn lone_poison_record_is_skipped() {
    let mut sink = PoisonSink::new(5);
    let r = insert_batch(&mut sink, vec![5u64], 8).unwrap();
    assert_eq!(r.0, 0);
    assert_eq!(r.1, vec![0usize]);
    assert!(sink.rows.is_empty());
}

#[test]
fn poison_isolation_costs_logarithmic_extra_calls() {
    // One poison among 999 healthy records at chunk ceiling 1000: the
    // shrink-and-isolate loop must stay well below one call per record.
    let poison = 1_000_000u64;
    let mut records: Vec<u64> = (0..500u64).collect();
    records.push(poison);
    records.extend(501..1000u64);
    let mut sink = PoisonSink::new(poison);
    let r = insert_batch(&mut sink, records, 1000).unwrap();
    assert_eq!(r.0, 999);
    assert_eq!(r.1, vec![500usize]);
    assert_eq!(sink.rows.len(), 999);
    assert!(!sink.rows.contains(&poison));
    // ceil(999/1000) baseline plus O(log 1000) shrink/retry steps.
    assert!(sink.attempts <= 40, "attempts = {}", sink.attempts);
}

#[test]
fn chunk_size_one_still_inserts_everything() {
    let mut sink: MemorySink<u64> = MemorySink::new();
    let r = insert_batch(&mut sink, vec![4u64, 5, 6], 1).unwrap();
    assert_eq!(r.0, 3);
    assert_eq!(sink.rows, vec![4u64, 5, 6]);
    assert_eq!(sink.attempts, 3);
}

#[test]
fn duplicate_poison_values_are_each_isolated() {
    // Two records equal to the poison value: both fail alone and both
    // are skipped; the healthy record still lands.
    let mut sink = PoisonSink::new(7);
    let r = insert_batch(&mut sink, vec![7u64, 1, 7], 4).unwrap();
    assert_eq!(r.0, 1);
    assert_eq!(r.1, vec![0usize, 2]);
    assert_eq!(sink.rows, vec![1u64]);
}

#[test]
fn all_poison_batch_inserts_nothing() {
    let mut sink = PoisonSink::new(7);
    let r = insert_batch(&mut sink, vec![7u64, 7], 4).unwrap();
    assert_eq!(r.0, 0);
    assert_eq!(r.1, vec![0usize, 1]);
    assert!(sink.rows.is_empty());
}

#[test]
fn unreachable_store_aborts_after_one_call() {
    let mut sink = OfflineSink::new();
    let aborted = insert_batch(&mut sink, vec![1u64, 2, 3, 4], 2).unwrap_err();
    assert_eq!(aborted.processed, 0);
    assert_eq!(aborted.inserted, 0);
    assert!(aborted.skipped.is_empty());
    assert_eq!(sink.attempts, 1);
}
