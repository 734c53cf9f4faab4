//! Schema labels, the dataset encoding and the performance samples.
use nns_dapp::codec::{decode_entries, encode_entries};
use nns_dapp::map_db::MapDb;
use nns_dapp::perf::{PerformanceCount, PerformanceCounts};
use nns_dapp::schema::{SchemaLabel, SchemaLabelError};
use nns_dapp::state::StableState;
use nns_dapp::stats::Stats;

#[test]
fn schema_label_bytes() {
    assert_eq!(SchemaLabel::HeapMap.to_bytes(), vec![0x4c, 0x42, 0x4c, 0x01, 0, 0, 0, 0]);
    assert_eq!(
        SchemaLabel::AccountsInStableMemory.to_bytes(),
        vec![0x4c, 0x42, 0x4c, 0x01, 1, 0, 0, 0]
    );
    for label in [SchemaLabel::HeapMap, SchemaLabel::AccountsInStableMemory] {
        assert_eq!(SchemaLabel::try_from_bytes(&label.to_bytes()), Ok(label));
    }
}

#[test]
fn schema_label_errors() {
    assert_eq!(
        SchemaLabel::try_from_bytes(&[0x4c, 0x42]),
        Err(SchemaLabelError::InvalidLength { length: 2 })
    );
    assert_eq!(
        SchemaLabel::try_from_bytes(&[0, 0, 0, 0, 0, 0, 0, 0]),
        Err(SchemaLabelError::InvalidChecksum)
    );
    assert_eq!(
        SchemaLabel::try_from_bytes(&[0x4c, 0x42, 0x4c, 0x01, 7, 1, 0, 0]),
        Err(SchemaLabelError::UnknownSchema { id: 263 })
    );
    assert_eq!(SchemaLabel::try_from_id(1), Some(SchemaLabel::AccountsInStableMemory));
    assert_eq!(SchemaLabel::try_from_id(2), None);
}

#[test]
fn entries_encoding_exact_bytes() {
    let bytes = encode_entries(&vec![(258u64, vec![9u8, 8])]);
    let expected: Vec<u8> = vec![
        1, 0, 0, 0, 0, 0, 0, 0, 2, 1, 0, 0, 0, 0, 0, 0, 2, 0, 0, 0, 0, 0, 0, 0, 9, 8,
    ];
    assert_eq!(bytes, expected);
    assert_eq!(decode_entries(&bytes), Some(vec![(258u64, vec![9u8, 8])]));
}

#[test]
fn entries_decoding_refuses_malformed_bytes() {
    let bytes = encode_entries(&vec![(1u64, vec![1u8]), (2u64, vec![])]);
    let mut trailing = bytes.clone();
    trailing.push(0);
    assert_eq!(decode_entries(&trailing), None);
    assert_eq!(decode_entries(&bytes[..bytes.len() - 1]), None);
    assert_eq!(decode_entries(&[]), None);
    assert_eq!(decode_entries(&[0u8; 8]), Some(vec![]));
}

#[test]
fn map_db_round_trip_and_order() {
    let mut db = MapDb::new();
    for key in [30u64, 10, 20, 10] {
        db.insert(key, vec![key as u8]);
    }
    assert_eq!(db.len(), 3);
    let keys: Vec<u64> = db.entries().iter().map(|e| e.0).collect();
    assert_eq!(keys, vec![10, 20, 30]);
    assert_eq!(db.first_after(Some(10)).map(|(k, _)| k), Some(20));
    assert_eq!(db.first_after(Some(30)).map(|(k, _)| k), None);
    assert_eq!(db.remove(20), Some(vec![20u8]));
    assert_eq!(db.get(20), None);
    let decoded = MapDb::decode(&db.encode()).unwrap();
    assert_eq!(decoded.entries(), db.entries());
}

#[test]
fn ring_buffer_evicts_oldest() {
    let mut counts = PerformanceCounts::default();
    for i in 0..105u64 {
        counts.save_instruction_count(PerformanceCount::new("step", i, i * 2));
    }
    assert_eq!(counts.instruction_counts.len(), 100);
    assert_eq!(counts.instruction_counts[0].timestamp_ns_since_epoch, 5);
    assert_eq!(counts.instruction_counts[99].instruction_count, 208);
}

#[test]
fn exceptional_transactions_are_bounded() {
    let mut counts = PerformanceCounts::default();
    for id in 0..1003u64 {
        counts.record_exceptional_transaction_id(id);
    }
    let ids = counts.exceptional_transactions.as_ref().unwrap();
    assert_eq!(ids.len(), 1000);
    assert_eq!(ids[0], 1002);
    assert_eq!(ids[999], 3);
    let mut stats = Stats::default();
    counts.get_stats(&mut stats);
    assert_eq!(stats.exceptional_transactions_count, Some(1000));
}

#[test]
fn periodic_tasks_count() {
    let mut counts = PerformanceCounts::default();
    counts.increment_periodic_tasks_run();
    counts.increment_periodic_tasks_run();
    assert_eq!(counts.periodic_tasks_count, Some(2));
    counts.periodic_tasks_count = Some(u32::MAX);
    counts.increment_periodic_tasks_run();
    assert_eq!(counts.periodic_tasks_count, Some(u32::MAX));
}

#[test]
fn test_data_has_three_samples() {
    let data = PerformanceCounts::test_data();
    assert_eq!(data.instruction_counts.len(), 3);
    assert_eq!(data.instruction_counts[1].name, "Nein");
    assert_eq!(data.instruction_counts[1].timestamp_ns_since_epoch, 999);
    let mut stats = Stats::default();
    data.get_stats(&mut stats);
    assert_eq!(stats.performance_counts.len(), 3);
    assert_eq!(stats.exceptional_transactions_count, Some(0));
    assert_eq!(stats.periodic_tasks_count, None);
}

#[test]
fn performance_counts_round_trip() {
    let mut counts = PerformanceCounts::test_data();
    counts.record_exceptional_transaction_id(5);
    counts.increment_periodic_tasks_run();
    let bytes = StableState::encode(&counts);
    let decoded = <PerformanceCounts as StableState>::decode(bytes).unwrap();
    assert_eq!(decoded, counts);
    let empty = PerformanceCounts::default();
    let decoded = <PerformanceCounts as StableState>::decode(StableState::encode(&empty)).unwrap();
    assert_eq!(decoded, empty);
}

#[test]
fn unreadable_performance_counts_give_none() {
    let decoded = <PerformanceCounts as StableState>::decode(vec![1, 2, 3]).unwrap();
    assert_eq!(decoded, PerformanceCounts::default());
    let mut bytes = StableState::encode(&PerformanceCounts::test_data());
    bytes.pop();
    let decoded = <PerformanceCounts as StableState>::decode(bytes).unwrap();
    assert_eq!(decoded, PerformanceCounts::default());
}
