//! Migration of the dataset between the two schemas, across upgrades and ticks.
use nns_dapp::schema::SchemaLabel;
use nns_dapp::state::{CanisterArguments, State, UpgradeImage};

/// A state under test, and a reference state that receives the same entries but is never
/// migrated.
struct TestEnv {
    state: Option<State>,
    reference: State,
}

impl TestEnv {
    fn new() -> TestEnv {
        TestEnv { state: None, reference: State::new(SchemaLabel::HeapMap).unwrap() }
    }

    fn state(&self) -> &State {
        self.state.as_ref().unwrap()
    }

    fn install_with_schema(&mut self, schema: Option<SchemaLabel>) {
        let state = State::new(SchemaLabel::HeapMap).unwrap();
        self.state = Some(state.with_arguments(&CanisterArguments { schema }));
    }

    fn upgrade_to_schema(&mut self, schema: Option<SchemaLabel>) {
        let mut state = self.state.take().unwrap();
        let loaded = match state.pre_upgrade().expect("pre_upgrade failed") {
            UpgradeImage::Raw(bytes) => State::decode(&bytes).expect("decoding the blob failed"),
            UpgradeImage::Managed => State::from_partitions(state.into_partitions().unwrap())
                .expect("loading managed memory failed"),
        };
        self.state = Some(loaded.with_arguments(&CanisterArguments { schema }));
    }

    fn create_toy_accounts(&mut self, num_accounts: u64) {
        let start = self.reference.entries_count();
        for index in start..start + num_accounts {
            let value = format!("account {index}").into_bytes();
            self.state.as_mut().unwrap().insert_entry(index, value.clone());
            self.reference.insert_entry(index, value);
        }
    }

    fn tick(&mut self) {
        self.state.as_mut().unwrap().step_migration().expect("migration step failed");
    }

    fn schema(&self) -> Option<u32> {
        self.state().get_stats().schema
    }

    fn migration_countdown(&self) -> Option<u32> {
        self.state().get_stats().migration_countdown
    }

    fn assert_invariants_match(&self) {
        let state = self.state();
        assert_eq!(state.entries_count(), self.reference.entries_count());
        for key in 0..self.reference.entries_count() {
            assert_eq!(state.get_entry(key), self.reference.get_entry(key));
        }
    }
}

#[test]
fn migration_happy_path() {
    let mut test_env = TestEnv::new();
    test_env.install_with_schema(Some(SchemaLabel::HeapMap));
    test_env.assert_invariants_match();
    assert_eq!(test_env.schema(), Some(SchemaLabel::HeapMap.id()));

    test_env.create_toy_accounts(17);
    test_env.assert_invariants_match();

    test_env.upgrade_to_schema(Some(SchemaLabel::AccountsInStableMemory));
    test_env.assert_invariants_match();
    assert_eq!(
        test_env.schema(),
        Some(SchemaLabel::HeapMap.id()),
        "The authoritative schema should still be the old one until the migration is complete"
    );

    for _ in 0..10 {
        test_env.create_toy_accounts(13);
        test_env.assert_invariants_match();
        test_env.tick();
    }
    assert_eq!(
        test_env.schema(),
        Some(SchemaLabel::AccountsInStableMemory.id()),
        "The migration should have completed successfully"
    );
    test_env.assert_invariants_match();
}

#[test]
fn interrupted_migration() {
    let mut test_env = TestEnv::new();
    test_env.install_with_schema(Some(SchemaLabel::HeapMap));
    test_env.assert_invariants_match();
    assert_eq!(test_env.schema(), Some(SchemaLabel::HeapMap.id()));

    test_env.create_toy_accounts(321);
    test_env.assert_invariants_match();

    test_env.upgrade_to_schema(Some(SchemaLabel::AccountsInStableMemory));
    test_env.assert_invariants_match();
    assert_eq!(
        test_env.schema(),
        Some(SchemaLabel::HeapMap.id()),
        "The authoritative schema should still be the old one until the migration is complete"
    );

    for _ in 0..5 {
        test_env.create_toy_accounts(5);
        test_env.assert_invariants_match();
        test_env.tick();
        test_env.assert_invariants_match();
    }
    assert_eq!(
        test_env.schema(),
        Some(SchemaLabel::HeapMap.id()),
        "The insufficient ticks have passed for the migration to complete, so the schema should not have changed"
    );
    assert_ne!(
        test_env.migration_countdown(),
        Some(0),
        "The migration should still be in progress"
    );

    test_env.upgrade_to_schema(Some(SchemaLabel::HeapMap));
    test_env.assert_invariants_match();
    assert_eq!(
        test_env.schema(),
        Some(SchemaLabel::HeapMap.id()),
        "The authoritative schema should have stayed as Map"
    );
    assert_eq!(
        test_env.migration_countdown(),
        Some(0),
        "There should be no migration in progress after rollback"
    );

    for _ in 0..20 {
        test_env.create_toy_accounts(5);
        test_env.assert_invariants_match();
        test_env.tick();
        test_env.assert_invariants_match();
        assert_eq!(test_env.migration_countdown(), Some(0));
        assert_eq!(test_env.schema(), Some(SchemaLabel::HeapMap.id()));
    }
}

#[test]
fn seventeen_entries_complete_within_ten_ticks() {
    let mut test_env = TestEnv::new();
    test_env.install_with_schema(Some(SchemaLabel::HeapMap));
    test_env.create_toy_accounts(17);
    test_env.upgrade_to_schema(Some(SchemaLabel::AccountsInStableMemory));
    for _ in 0..10 {
        assert_eq!(test_env.state().entries_count(), 17);
        test_env.tick();
    }
    assert_eq!(test_env.schema(), Some(SchemaLabel::AccountsInStableMemory.id()));
    assert_eq!(test_env.migration_countdown(), Some(0));
    assert_eq!(test_env.state().entries_count(), 17);
    test_env.assert_invariants_match();
}

#[test]
fn five_ticks_leave_legacy_schema_then_rollback_is_immediate() {
    let mut test_env = TestEnv::new();
    test_env.install_with_schema(Some(SchemaLabel::HeapMap));
    test_env.create_toy_accounts(321);
    test_env.upgrade_to_schema(Some(SchemaLabel::AccountsInStableMemory));
    for _ in 0..5 {
        test_env.tick();
    }
    assert_eq!(test_env.schema(), Some(SchemaLabel::HeapMap.id()));
    assert_eq!(test_env.migration_countdown(), Some(321 - 5 * 20 + 1));
    test_env.upgrade_to_schema(Some(SchemaLabel::HeapMap));
    assert_eq!(test_env.schema(), Some(SchemaLabel::HeapMap.id()));
    assert_eq!(test_env.migration_countdown(), Some(0));
    for _ in 0..30 {
        test_env.tick();
    }
    assert_eq!(test_env.schema(), Some(SchemaLabel::HeapMap.id()));
    test_env.assert_invariants_match();
}

#[test]
fn migration_back_to_the_heap_schema() {
    let mut test_env = TestEnv::new();
    test_env.install_with_schema(Some(SchemaLabel::AccountsInStableMemory));
    test_env.create_toy_accounts(45);
    test_env.upgrade_to_schema(Some(SchemaLabel::AccountsInStableMemory));
    test_env.tick();
    test_env.tick();
    test_env.tick();
    assert_eq!(test_env.schema(), Some(SchemaLabel::AccountsInStableMemory.id()));
    test_env.assert_invariants_match();
    test_env.upgrade_to_schema(Some(SchemaLabel::HeapMap));
    assert_eq!(test_env.schema(), Some(SchemaLabel::AccountsInStableMemory.id()));
    test_env.tick();
    test_env.tick();
    assert_eq!(test_env.schema(), Some(SchemaLabel::AccountsInStableMemory.id()));
    let cursor = test_env.state().accounts_store.migration_cursor();
    test_env.upgrade_to_schema(None);
    assert_eq!(test_env.state().accounts_store.migration_cursor(), cursor);
    assert_eq!(test_env.schema(), Some(SchemaLabel::AccountsInStableMemory.id()));
    test_env.assert_invariants_match();
    test_env.tick();
    assert_eq!(test_env.schema(), Some(SchemaLabel::HeapMap.id()));
    test_env.assert_invariants_match();
    test_env.upgrade_to_schema(None);
    assert_eq!(test_env.schema(), Some(SchemaLabel::HeapMap.id()));
    test_env.assert_invariants_match();
}

#[test]
fn count_is_the_same_mid_migration_and_after() {
    let mut test_env = TestEnv::new();
    test_env.install_with_schema(Some(SchemaLabel::HeapMap));
    test_env.create_toy_accounts(70);
    test_env.upgrade_to_schema(Some(SchemaLabel::AccountsInStableMemory));
    let mut counts = Vec::new();
    for _ in 0..5 {
        counts.push(test_env.state().entries_count());
        test_env.tick();
    }
    counts.push(test_env.state().entries_count());
    assert_eq!(test_env.schema(), Some(SchemaLabel::AccountsInStableMemory.id()));
    assert!(counts.iter().all(|c| *c == 70));
}

#[test]
fn requesting_the_current_schema_starts_nothing() {
    let mut test_env = TestEnv::new();
    test_env.install_with_schema(Some(SchemaLabel::HeapMap));
    test_env.create_toy_accounts(30);
    test_env.upgrade_to_schema(Some(SchemaLabel::HeapMap));
    assert_eq!(test_env.migration_countdown(), Some(0));
    assert!(test_env.state().accounts_store.migration_target().is_none());
    test_env.tick();
    assert_eq!(test_env.schema(), Some(SchemaLabel::HeapMap.id()));
    test_env.assert_invariants_match();
}

#[test]
fn interrupted_and_resumed_migration_matches_one_pass() {
    let mut interrupted = TestEnv::new();
    interrupted.install_with_schema(Some(SchemaLabel::HeapMap));
    interrupted.create_toy_accounts(95);
    interrupted.upgrade_to_schema(Some(SchemaLabel::AccountsInStableMemory));
    interrupted.tick();
    interrupted.tick();
    let cursor = interrupted.state().accounts_store.migration_cursor();
    assert_eq!(cursor, Some(39));
    let countdown = interrupted.migration_countdown();
    interrupted.upgrade_to_schema(None);
    assert_eq!(
        interrupted.state().accounts_store.migration_target(),
        Some(SchemaLabel::AccountsInStableMemory)
    );
    assert_eq!(interrupted.state().accounts_store.migration_cursor(), cursor);
    assert_eq!(interrupted.migration_countdown(), countdown);
    for _ in 0..3 {
        interrupted.tick();
    }
    assert_eq!(interrupted.schema(), Some(SchemaLabel::AccountsInStableMemory.id()));

    let mut one_pass = State::new(SchemaLabel::HeapMap).unwrap();
    for index in 0..95u64 {
        one_pass.insert_entry(index, format!("account {index}").into_bytes());
    }
    let mut one_pass = one_pass.with_arguments(&CanisterArguments {
        schema: Some(SchemaLabel::AccountsInStableMemory),
    });
    while one_pass.accounts_store.migration_target().is_some() {
        one_pass.step_migration().unwrap();
    }
    assert_eq!(one_pass.schema_label(), SchemaLabel::AccountsInStableMemory);
    assert_eq!(interrupted.state().entries_count(), one_pass.entries_count());
    for key in 0..100u64 {
        assert_eq!(interrupted.state().get_entry(key), one_pass.get_entry(key));
    }
}

#[test]
fn rollback_keeps_every_entry_once() {
    let mut test_env = TestEnv::new();
    test_env.install_with_schema(Some(SchemaLabel::HeapMap));
    test_env.create_toy_accounts(200);
    test_env.upgrade_to_schema(Some(SchemaLabel::AccountsInStableMemory));
    test_env.tick();
    test_env.tick();
    let mut state = test_env.state.take().unwrap();
    state.remove_entry(3);
    test_env.reference.remove_entry(3);
    let state = state.with_arguments(&CanisterArguments { schema: Some(SchemaLabel::HeapMap) });
    assert_eq!(state.schema_label(), SchemaLabel::HeapMap);
    assert!(state.accounts_store.migration_target().is_none());
    assert_eq!(state.entries_count(), 199);
    assert_eq!(state.get_entry(3), None);
    test_env.state = Some(state);
    test_env.assert_invariants_match();
}
