//! Loading and persisting the state, and its statistics.
use nns_dapp::partitions::{
    is_managed_memory_header, memory_layout, MemoryLayout, Partitions, PartitionsError,
    ACCOUNTS_MEMORY_ID,
};
use nns_dapp::perf::{PerformanceCount, PerformanceCounts};
use nns_dapp::schema::{SchemaLabel, SchemaLabelError};
use nns_dapp::state::{
    decode_aux, encode_aux, plan_migration, record_instruction_count, save_instruction_count,
    CanisterArguments, MigrationAction, State, StateError, UpgradeImage,
};

fn state_with_entries(n: u64) -> State {
    let mut state = State::new(SchemaLabel::HeapMap).unwrap();
    for key in 0..n {
        state.insert_entry(key * 7, vec![(key % 251) as u8; (key % 5) as usize]);
    }
    state
}

fn blob_of(state: &mut State) -> Vec<u8> {
    match state.pre_upgrade().unwrap() {
        UpgradeImage::Raw(bytes) => bytes,
        UpgradeImage::Managed => panic!("expected a legacy blob"),
    }
}

fn legacy_round_trip(n: u64) {
    let mut state = state_with_entries(n);
    let bytes = blob_of(&mut state);
    let mut loaded = State::decode(&bytes).unwrap();
    assert_eq!(loaded.entries_count(), n);
    for key in 0..n {
        assert_eq!(loaded.get_entry(key * 7), state.get_entry(key * 7));
    }
    let again = loaded.encode().unwrap();
    assert_eq!(again, bytes);
    assert_eq!(blob_of(&mut loaded), bytes);
}

#[test]
fn legacy_blob_round_trip_empty() {
    legacy_round_trip(0);
}

#[test]
fn legacy_blob_round_trip_one_entry() {
    legacy_round_trip(1);
}

#[test]
fn legacy_blob_round_trip_many_entries() {
    legacy_round_trip(1500);
}

#[test]
fn garbage_blob_is_unreadable() {
    assert_eq!(State::decode(&[1, 2, 3]).err(), Some(StateError::UnreadableBlob));
}

#[test]
fn corrupt_dataset_fails_the_load() {
    let bytes = candid::encode_args((vec![1u8, 2, 3], encode_aux(None, None, &PerformanceCounts::default()))).unwrap();
    assert_eq!(State::decode(&bytes).err(), Some(StateError::CorruptDataset));
}

#[test]
fn unsorted_dataset_fails_the_load() {
    let mut dataset = vec![2, 0, 0, 0, 0, 0, 0, 0];
    for key in [5u64, 4u64] {
        dataset.extend_from_slice(&key.to_le_bytes());
        dataset.extend_from_slice(&0u64.to_le_bytes());
    }
    let bytes = candid::encode_args((dataset, encode_aux(None, None, &PerformanceCounts::default()))).unwrap();
    assert_eq!(State::decode(&bytes).err(), Some(StateError::CorruptDataset));
}

#[test]
fn corrupt_auxiliary_state_fails_the_load() {
    let empty_dataset = vec![0u8; 8];
    let bytes = candid::encode_args((empty_dataset, vec![9u8; 11])).unwrap();
    assert_eq!(State::decode(&bytes).err(), Some(StateError::CorruptAuxiliary));
}

#[test]
fn legacy_blob_resumes_recorded_migration() {
    let empty_dataset = vec![0u8; 8];
    let aux = encode_aux(Some(SchemaLabel::AccountsInStableMemory), None, &PerformanceCounts::default());
    let bytes = candid::encode_args((empty_dataset, aux)).unwrap();
    let state = State::decode(&bytes).unwrap();
    assert_eq!(state.schema_label(), SchemaLabel::HeapMap);
    assert_eq!(
        state.accounts_store.migration_target(),
        Some(SchemaLabel::AccountsInStableMemory)
    );
}

#[test]
fn partitioned_state_survives_upgrade() {
    let mut state = State::new(SchemaLabel::AccountsInStableMemory).unwrap();
    for key in 0..30u64 {
        state.insert_entry(key, vec![key as u8]);
    }
    assert_eq!(state.pre_upgrade().unwrap(), UpgradeImage::Managed);
    assert_eq!(state.encode().err(), Some(StateError::NotInMemory));
    let partitions = state.into_partitions().unwrap();
    assert_eq!(partitions.schema_label(), Ok(Some(SchemaLabel::AccountsInStableMemory)));
    let loaded = State::from_partitions(partitions).unwrap();
    assert_eq!(loaded.schema_label(), SchemaLabel::AccountsInStableMemory);
    assert_eq!(loaded.entries_count(), 30);
    assert_eq!(loaded.get_entry(29), Some(vec![29u8]));
    assert_eq!(loaded.get_entry(30), None);
}

#[test]
fn unlabelled_managed_memory_is_refused() {
    let partitions = Partitions::open(ACCOUNTS_MEMORY_ID);
    assert_eq!(partitions.schema_label(), Ok(None));
    assert_eq!(
        State::from_partitions(partitions).err(),
        Some(StateError::UnexpectedLabel { found: None })
    );
}

#[test]
fn heap_label_in_managed_memory_is_refused() {
    let mut partitions = Partitions::open(ACCOUNTS_MEMORY_ID);
    partitions.set_schema_label(SchemaLabel::HeapMap).unwrap();
    assert_eq!(
        State::from_partitions(partitions).err(),
        Some(StateError::UnexpectedLabel { found: Some(SchemaLabel::HeapMap) })
    );
}

#[test]
fn managed_memory_header() {
    assert!(is_managed_memory_header(b"MGR\x01"));
    assert!(!is_managed_memory_header(b"MG"));
    assert!(!is_managed_memory_header(b"DIDL"));
}

#[test]
fn persistent_memory_layouts() {
    let mut legacy = vec![0x42u8, 0x4c, 0x42, 0x01];
    legacy.extend_from_slice(&100u64.to_le_bytes());
    assert_eq!(memory_layout(&legacy, 65536), Some(MemoryLayout::Legacy { length: 100 }));
    assert_eq!(memory_layout(&legacy, 50), None);
    assert_eq!(memory_layout(b"MGR\x01", 65536), Some(MemoryLayout::Managed));
    assert_eq!(memory_layout(&[], 0), Some(MemoryLayout::Empty));
    assert_eq!(memory_layout(&[0u8; 12], 65536), None);
}

#[test]
fn legacy_state_holds_no_managed_memory() {
    assert!(State::new(SchemaLabel::HeapMap).unwrap().into_partitions().is_none());
    assert!(State::default().into_partitions().is_none());
}

#[test]
fn migration_plan() {
    let heap = SchemaLabel::HeapMap;
    let stable = SchemaLabel::AccountsInStableMemory;
    assert_eq!(plan_migration(heap, None, None), MigrationAction::Keep);
    assert_eq!(plan_migration(heap, None, Some(heap)), MigrationAction::Keep);
    assert_eq!(plan_migration(heap, None, Some(stable)), MigrationAction::Begin(stable));
    assert_eq!(plan_migration(heap, Some(stable), Some(stable)), MigrationAction::Keep);
    assert_eq!(plan_migration(heap, Some(stable), Some(heap)), MigrationAction::Abort);
    assert_eq!(plan_migration(stable, Some(heap), None), MigrationAction::Keep);
}

#[test]
fn auxiliary_encoding() {
    let none = PerformanceCounts::default();
    assert_eq!(encode_aux(None, None, &none)[..11], [1, 0, 0, 0, 0, 0, 0, 0, 0, 0, 0]);
    assert_eq!(encode_aux(Some(SchemaLabel::HeapMap), None, &none)[..3], [1, 1, 0]);
    assert_eq!(
        encode_aux(Some(SchemaLabel::AccountsInStableMemory), Some(258), &none)[..11],
        [1, 2, 1, 2, 1, 0, 0, 0, 0, 0, 0]
    );
    let bytes = encode_aux(Some(SchemaLabel::AccountsInStableMemory), Some(258), &none);
    assert_eq!(decode_aux(&bytes), Some((Some(SchemaLabel::AccountsInStableMemory), Some(258))));
    assert_eq!(decode_aux(&[]), Some((None, None)));
    assert_eq!(decode_aux(&[1, 3, 0, 0, 0, 0, 0, 0, 0, 0, 0]), None);
    assert_eq!(decode_aux(&[2, 0, 0, 0, 0, 0, 0, 0, 0, 0, 0]), None);
    assert_eq!(decode_aux(&[1, 0, 2, 0, 0, 0, 0, 0, 0, 0, 0]), None);
    assert_eq!(decode_aux(&[1, 0]), None);
}

#[test]
fn samples_survive_a_legacy_upgrade() {
    let mut state = state_with_entries(4);
    record_instruction_count(&mut state, "before upgrade", 11, 12);
    state.performance.record_exceptional_transaction_id(77);
    state.performance.increment_periodic_tasks_run();
    let bytes = blob_of(&mut state);
    let loaded = State::decode(&bytes).unwrap();
    assert_eq!(loaded.performance, state.performance);
}

#[test]
fn samples_survive_a_managed_upgrade() {
    let mut state = State::new(SchemaLabel::AccountsInStableMemory).unwrap();
    record_instruction_count(&mut state, "naïve", 1, 2);
    state.pre_upgrade().unwrap();
    let expected = state.performance.clone();
    let loaded = State::from_partitions(state.into_partitions().unwrap()).unwrap();
    assert_eq!(loaded.performance, expected);
}

#[test]
fn unreadable_samples_degrade_to_none() {
    let empty_dataset = vec![0u8; 8];
    let aux = vec![1u8, 0, 0, 0, 0, 0, 0, 0, 0, 0, 0, 5, 5, 5];
    let bytes = candid::encode_args((empty_dataset, aux)).unwrap();
    let state = State::decode(&bytes).unwrap();
    assert_eq!(state.performance, PerformanceCounts::default());
}

#[test]
fn stats_of_a_fresh_state() {
    let mut state = State::default();
    let stats = state.get_stats();
    assert_eq!(stats.schema, Some(0));
    assert_eq!(stats.accounts_count, 0);
    assert_eq!(stats.migration_countdown, Some(0));
    assert_eq!(stats.exceptional_transactions_count, Some(0));
    save_instruction_count(&mut state, PerformanceCount::new("upgrade", 5, 6));
    record_instruction_count(&mut state, "tick", 7, 8);
    let stats = state.get_stats();
    assert_eq!(stats.performance_counts.len(), 2);
    assert_eq!(stats.performance_counts[1], PerformanceCount::new("tick", 7, 8));
}

#[test]
fn stats_during_migration() {
    let state = state_with_entries(50);
    let mut state = state.with_arguments(&CanisterArguments {
        schema: Some(SchemaLabel::AccountsInStableMemory),
    });
    assert_eq!(state.get_stats().migration_countdown, Some(51));
    state.step_migration().unwrap();
    assert_eq!(state.get_stats().migration_countdown, Some(31));
    assert_eq!(state.get_stats().accounts_count, 50);
    assert_eq!(state.get_stats().schema, Some(0));
}

#[test]
fn replace_swaps_everything() {
    let mut state = state_with_entries(3);
    state.replace(state_with_entries(9));
    assert_eq!(state.entries_count(), 9);
}

#[test]
fn partitions_label_errors() {
    let mut state = State::new(SchemaLabel::AccountsInStableMemory).unwrap();
    state.insert_entry(1, vec![1]);
    let partitions = state.into_partitions().unwrap();
    assert_eq!(partitions.load_heap(), Ok(vec![]));
    let _ = PartitionsError::CorruptLabel(SchemaLabelError::InvalidChecksum);
}
