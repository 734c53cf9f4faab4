//! The state container: the dataset with its migration, the performance samples, and
//! the durability boundary that persists them across an upgrade and restores them.
use vstd::prelude::*;
use crate::accounts_db::{copied_entries, pending_keys, schema_of, AccountsDb, AccountsStore};
use crate::blob::{candid_pair_bytes, candid_pair_of, decode_pair, encode_pair};
use crate::codec::{encodes, entries_view, spec_encode_entries};
use crate::map_db::{map_of, sorted_keys, MapDb};
use crate::partitions::{
    cell_value, partition_accounts, partition_cells, spec_label_in, Partitions, PartitionsError,
    ACCOUNTS_MEMORY_ID, HEAP_MEMORY_ID, METADATA_MEMORY_ID,
};
use crate::perf::{PerformanceCount, PerformanceCounts};
use crate::perf_codec::{
    decode_performance_or_default, encode_performance, perf_view, samples_restored,
    spec_encode_perf,
};
use crate::schema::{spec_label_bytes, spec_label_id, spec_label_of_id, SchemaLabel};
use vstd::bytes::{
    lemma_auto_spec_u64_to_from_le_bytes, spec_u64_from_le_bytes, spec_u64_to_le_bytes,
    u64_from_le_bytes, u64_to_le_bytes,
};
use crate::stats::Stats;

verus! {

/// A value that is persisted as bytes and read back from them.
pub trait StableState: Sized {
    /// The bytes that persist the value.
    fn encode(&self) -> Vec<u8>;

    /// Reads a value back from its bytes.
    fn decode(bytes: Vec<u8>) -> Result<Self, String>;
}

/// Number of entries that one scheduling step copies.
pub const MIGRATION_STEP_SIZE: u32 = 20;

/// Arguments given on install and on upgrade.
#[derive(Clone, Copy, Debug, Default, PartialEq, Eq, Structural)]
pub struct CanisterArguments {
    /// The schema that the dataset should move to; none keeps the current plan.
    pub schema: Option<SchemaLabel>,
}

/// What to do with the migration when a schema is requested.
#[derive(Clone, Copy, Debug, PartialEq, Eq, Structural)]
pub enum MigrationAction {
    /// Leave the migration, or its absence, as it is.
    Keep,
    /// Drop any migration in progress and start one toward the schema.
    Begin(SchemaLabel),
    /// Drop the migration in progress; the current schema stays authoritative.
    Abort,
}

/// The migration decision: requesting nothing, or the schema already being migrated to,
/// keeps the plan; requesting the authoritative schema cancels a migration (or does
/// nothing when there is none); requesting the other schema starts a migration.
pub open spec fn spec_plan(
    current: SchemaLabel,
    in_progress: Option<SchemaLabel>,
    requested: Option<SchemaLabel>,
) -> MigrationAction {
    match requested {
        None => MigrationAction::Keep,
        Some(r) => if r == current {
            if in_progress is Some {
                MigrationAction::Abort
            } else {
                MigrationAction::Keep
            }
        } else if in_progress == Some(r) {
            MigrationAction::Keep
        } else {
            MigrationAction::Begin(r)
        },
    }
}

/// Decides what a requested schema does to the migration.
pub fn plan_migration(
    current: SchemaLabel,
    in_progress: Option<SchemaLabel>,
    requested: Option<SchemaLabel>,
) -> (r: MigrationAction)
    ensures
        r == spec_plan(current, in_progress, requested),
{
    match requested {
        None => MigrationAction::Keep,
        Some(r) => {
            if r == current {
                if in_progress.is_some() {
                    MigrationAction::Abort
                } else {
                    MigrationAction::Keep
                }
            } else if in_progress == Some(r) {
                MigrationAction::Keep
            } else {
                MigrationAction::Begin(r)
            }
        },
    }
}

/// The performance samples and counters as plain values.
pub type PerfView = (Seq<(u64, u64, Seq<char>)>, Option<Seq<u64>>, Option<u32>);

/// The encoding of the auxiliary state: a version byte; the schema that a migration in
/// progress moves to (zero for none, else its number plus one); whether it has a cursor;
/// the cursor, little-endian (zero when there is none); then the performance samples and
/// counters.
pub open spec fn spec_aux_bytes(
    target: Option<SchemaLabel>,
    cursor: Option<u64>,
    perf: PerfView,
) -> Seq<u8> {
    seq![
        1u8,
        match target {
            None => 0u8,
            Some(l) => (spec_label_id(l) + 1) as u8,
        },
        match cursor {
            Some(_) => 1u8,
            None => 0u8,
        },
    ] + spec_u64_to_le_bytes(
        match cursor {
            Some(c) => c,
            None => 0u64,
        },
    ) + spec_encode_perf(perf)
}

/// Number of bytes of the auxiliary state before the performance samples.
pub const AUX_HEADER_BYTES: usize = 11;

/// The migration target and cursor that the auxiliary bytes record; empty bytes record no
/// migration.
pub open spec fn spec_aux_of(b: Seq<u8>) -> Option<(Option<SchemaLabel>, Option<u64>)> {
    if b.len() == 0 {
        Some((None, None))
    } else if b.len() < AUX_HEADER_BYTES || b[0] != 1 || b[2] > 1 {
        None
    } else {
        let cursor = if b[2] == 1 {
            Some(spec_u64_from_le_bytes(b.subrange(3, 11)))
        } else {
            None
        };
        if b[1] == 0 {
            Some((None, cursor))
        } else {
            match spec_label_of_id((b[1] - 1) as u32) {
                Some(l) => Some((Some(l), cursor)),
                None => None,
            }
        }
    }
}

/// The bytes of the performance samples within the auxiliary bytes.
pub open spec fn aux_samples(b: Seq<u8>) -> Seq<u8> {
    if b.len() < AUX_HEADER_BYTES {
        Seq::empty()
    } else {
        b.subrange(AUX_HEADER_BYTES as int, b.len() as int)
    }
}

/// Encodes the auxiliary state.
pub fn encode_aux(
    target: Option<SchemaLabel>,
    cursor: Option<u64>,
    performance: &PerformanceCounts,
) -> (r: Vec<u8>)
    ensures
        r@ == spec_aux_bytes(target, cursor, perf_view(*performance)),
{
    let t: u8 = match target {
        None => 0,
        Some(l) => (l.id() + 1) as u8,
    };
    let (flag, c): (u8, u64) = match cursor {
        Some(c) => (1, c),
        None => (0, 0),
    };
    let mut r: Vec<u8> = vec![1u8, t, flag];
    let cursor_bytes = u64_to_le_bytes(c);
    crate::codec::push_bytes(&mut r, cursor_bytes.as_slice());
    let samples = encode_performance(performance);
    crate::codec::push_bytes(&mut r, samples.as_slice());
    assert(r@ =~= spec_aux_bytes(target, cursor, perf_view(*performance)));
    r
}

/// Decodes the migration target and cursor recorded in the auxiliary state.
pub fn decode_aux(b: &[u8]) -> (r: Option<(Option<SchemaLabel>, Option<u64>)>)
    ensures
        r == spec_aux_of(b@),
{
    if b.len() == 0 {
        return Some((None, None));
    }
    if b.len() < AUX_HEADER_BYTES || b[0] != 1 || b[2] > 1 {
        return None;
    }
    let cursor = if b[2] == 1 {
        Some(u64_from_le_bytes(vstd::slice::slice_subrange(b, 3, 11)))
    } else {
        None
    };
    if b[1] == 0 {
        return Some((None, cursor));
    }
    match SchemaLabel::try_from_id((b[1] - 1) as u32) {
        Some(l) => Some((Some(l), cursor)),
        None => None,
    }
}

/// Decodes the performance samples in the auxiliary state, degrading to none.
fn decode_aux_samples(b: &[u8]) -> (r: PerformanceCounts)
    ensures
        samples_restored(r, aux_samples(b@)),
{
    if b.len() < AUX_HEADER_BYTES {
        let none: Vec<u8> = Vec::new();
        decode_performance_or_default(none.as_slice())
    } else {
        decode_performance_or_default(vstd::slice::slice_subrange(b, AUX_HEADER_BYTES, b.len()))
    }
}

/// Reading back the auxiliary encoding gives the migration target, the cursor and the
/// sample bytes that were encoded.
pub proof fn lemma_aux_round_trip(target: Option<SchemaLabel>, cursor: Option<u64>, perf: PerfView)
    ensures
        spec_aux_of(spec_aux_bytes(target, cursor, perf)) == Some((target, cursor)),
        aux_samples(spec_aux_bytes(target, cursor, perf)) == spec_encode_perf(perf),
{
    lemma_auto_spec_u64_to_from_le_bytes();
    let b = spec_aux_bytes(target, cursor, perf);
    let c = match cursor {
        Some(c) => c,
        None => 0u64,
    };
    assert(b.subrange(3, 11) =~= spec_u64_to_le_bytes(c));
    assert(aux_samples(b) =~= spec_encode_perf(perf));
}

/// Why the state could not be loaded or persisted.
#[derive(Clone, Copy, Debug, PartialEq, Eq, Structural)]
pub enum StateError {
    /// Managed memory could not be read or written.
    Memory(PartitionsError),
    /// The legacy blob is not a Candid-encoded pair of byte strings.
    UnreadableBlob,
    /// The dataset half of the legacy blob is not a dataset.
    CorruptDataset,
    /// The auxiliary half of the persisted state is not readable.
    CorruptAuxiliary,
    /// Managed memory is labelled with a schema that does not keep its dataset there.
    UnexpectedLabel { found: Option<SchemaLabel> },
    /// The legacy blob applies only to the in-memory schema.
    NotInMemory,
}

/// Where `pre_upgrade` left the state.
#[derive(Clone, Debug, PartialEq, Eq)]
pub enum UpgradeImage {
    /// The legacy blob, to be written to raw persistent memory.
    Raw(Vec<u8>),
    /// Everything is in managed memory already.
    Managed,
}

/// The state of the service.
pub struct State {
    /// The dataset and its migration.
    pub accounts_store: AccountsStore,
    /// Performance samples; diagnostic only.
    pub performance: PerformanceCounts,
}

impl View for State {
    type V = Map<u64, Seq<u8>>;

    open spec fn view(&self) -> Map<u64, Seq<u8>> {
        self.accounts_store@
    }
}

/// Whether no performance sample or counter is held.
pub open spec fn no_samples(p: PerformanceCounts) -> bool {
    &&& p.instruction_counts@.len() == 0
    &&& p.exceptional_transactions is None
    &&& p.periodic_tasks_count is None
}

impl State {
    /// The managed memory of the authoritative representation, when it is the partitioned
    /// one.
    pub open spec fn spec_partitions(&self) -> Option<Partitions> {
        self.accounts_store.spec_memory()
    }

    /// The authoritative schema.
    pub open spec fn spec_schema(&self) -> SchemaLabel {
        self.accounts_store.spec_schema()
    }

    /// Whether a representation in managed memory is in use.
    pub open spec fn uses_partitions(&self) -> bool {
        self.spec_schema() == SchemaLabel::AccountsInStableMemory
            || self.accounts_store.spec_target_schema() == Some(
            SchemaLabel::AccountsInStableMemory,
        )
    }

    /// The dataset is well formed.
    pub open spec fn wf(&self) -> bool {
        self.accounts_store.wf()
    }

    /// The value in a single-value partition of the authoritative managed memory.
    pub open spec fn spec_cell(&self, id: u8) -> Seq<u8> {
        cell_value(partition_cells(self.spec_partitions().unwrap()), id)
    }

    /// The two halves of the legacy blob of this state, when it is in the in-memory schema.
    pub open spec fn spec_blob_parts(&self) -> Option<(Seq<u8>, Seq<u8>)> {
        match self.accounts_store.spec_authoritative() {
            AccountsDb::Heap(db) => Some(
                (
                    spec_encode_entries(entries_view(db.spec_entries())),
                    spec_aux_bytes(
                        self.accounts_store.spec_target_schema(),
                        self.accounts_store.spec_cursor(),
                        perf_view(self.performance),
                    ),
                ),
            ),
            AccountsDb::Stable(_) => None,
        }
    }

    /// A state with an empty dataset in the in-memory schema.
    fn new_heap() -> (r: State)
        ensures
            r.wf(),
            r@ == Map::<u64, Seq<u8>>::empty(),
            r.spec_schema() == SchemaLabel::HeapMap,
            r.accounts_store.spec_migration() is None,
            no_samples(r.performance),
    {
        State {
            accounts_store: AccountsStore::new(AccountsDb::new_heap()),
            performance: PerformanceCounts {
                instruction_counts: std::collections::VecDeque::new(),
                exceptional_transactions: None,
                periodic_tasks_count: None,
            },
        }
    }

    /// Creates a state with an empty dataset in the given schema. For the partitioned
    /// schema, managed memory is opened and labelled.
    pub fn new(schema: SchemaLabel) -> (r: Result<State, StateError>)
        ensures
            r matches Ok(s) ==> {
                &&& s.wf()
                &&& s@ == Map::<u64, Seq<u8>>::empty()
                &&& s.spec_schema() == schema
                &&& s.accounts_store.spec_migration() is None
                &&& no_samples(s.performance)
                &&& schema == SchemaLabel::AccountsInStableMemory ==> s.spec_cell(
                    METADATA_MEMORY_ID,
                ) == spec_label_bytes(schema)
                &&& schema == SchemaLabel::HeapMap ==> !s.uses_partitions()
                    && s.spec_partitions() is None
            },
            schema == SchemaLabel::HeapMap ==> r is Ok,
            r is Err ==> schema == SchemaLabel::AccountsInStableMemory && r == Err::<
                State,
                StateError,
            >(StateError::Memory(PartitionsError::OutOfMemory)),
    {
        match schema {
            SchemaLabel::HeapMap => Ok(State::new_heap()),
            SchemaLabel::AccountsInStableMemory => {
                let mut partitions = Partitions::open(ACCOUNTS_MEMORY_ID);
                match partitions.set_schema_label(schema) {
                    Ok(()) => {},
                    Err(e) => return Err(StateError::Memory(e)),
                }
                partitions.reset_accounts(ACCOUNTS_MEMORY_ID);
                proof {
                    assert(partition_accounts(partitions) =~= Map::<u64, Seq<u8>>::empty());
                }
                let state = State {
                    accounts_store: AccountsStore::new(AccountsDb::Stable(partitions)),
                    performance: PerformanceCounts {
                        instruction_counts: std::collections::VecDeque::new(),
                        exceptional_transactions: None,
                        periodic_tasks_count: None,
                    },
                };
                Ok(state)
            },
        }
    }

    /// Swaps in an entirely new state, as one unit.
    pub fn replace(&mut self, new_state: State)
        ensures
            *final(self) == new_state,
    {
        *self = new_state;
    }

    /// The authoritative schema: the one whose representation serves reads.
    pub fn schema_label(&self) -> (r: SchemaLabel)
        ensures
            r == self.spec_schema(),
    {
        self.accounts_store.schema_label()
    }

    /// The managed memory of the authoritative representation, handed back when the state
    /// is dropped.
    pub fn into_partitions(self) -> (r: Option<Partitions>)
        ensures
            r == self.spec_partitions(),
    {
        match self.accounts_store.into_authoritative() {
            AccountsDb::Stable(p) => Some(p),
            AccountsDb::Heap(_) => None,
        }
    }

    /// Number of entries in the dataset.
    pub fn entries_count(&self) -> (r: u64)
        requires
            self.wf(),
        ensures
            r == self@.len(),
    {
        self.accounts_store.len()
    }

    /// A copy of the value under `key`.
    pub fn get_entry(&self, key: u64) -> (r: Option<Vec<u8>>)
        requires
            self.wf(),
        ensures
            r is Some <==> self@.contains_key(key),
            r matches Some(v) ==> v@ == self@[key],
    {
        self.accounts_store.get(key)
    }

    /// Creates or replaces the entry under `key`.
    pub fn insert_entry(&mut self, key: u64, value: Vec<u8>)
        requires
            old(self).wf(),
        ensures
            final(self).wf(),
            final(self)@ == old(self)@.insert(key, value@),
            final(self).spec_schema() == old(self).spec_schema(),
            final(self).accounts_store.spec_target_schema() == old(
                self,
            ).accounts_store.spec_target_schema(),
            final(self).accounts_store.spec_cursor() == old(self).accounts_store.spec_cursor(),
    {
        self.accounts_store.insert(key, value);
    }

    /// Removes the entry under `key`, returning its value.
    pub fn remove_entry(&mut self, key: u64) -> (r: Option<Vec<u8>>)
        requires
            old(self).wf(),
        ensures
            final(self).wf(),
            final(self)@ == old(self)@.remove(key),
            final(self).spec_schema() == old(self).spec_schema(),
            final(self).accounts_store.spec_target_schema() == old(
                self,
            ).accounts_store.spec_target_schema(),
            r is Some <==> old(self)@.contains_key(key),
            r matches Some(v) ==> v@ == old(self)@[key],
    {
        self.accounts_store.remove(key)
    }
}

/// What a schema request does: the dataset, its authoritative representation, the
/// samples and the authoritative managed memory stay; the migration changes as `spec_plan`
/// decides, and only a new migration toward the partitioned schema opens managed memory.
pub open spec fn schema_requested(before: State, after: State, requested: Option<SchemaLabel>) -> bool {
    &&& after.wf()
    &&& after@ == before@
    &&& after.accounts_store.spec_authoritative() == before.accounts_store.spec_authoritative()
    &&& after.performance == before.performance
    &&& after.spec_partitions() == before.spec_partitions()
    &&& match spec_plan(before.spec_schema(), before.accounts_store.spec_target_schema(), requested) {
        MigrationAction::Keep => after.accounts_store == before.accounts_store,
        MigrationAction::Abort => {
            &&& after.accounts_store.spec_migration() is None
            &&& !before.uses_partitions() ==> !after.uses_partitions()
        },
        MigrationAction::Begin(t) => {
            &&& after.accounts_store.spec_target_schema() == Some(t)
            &&& after.accounts_store.spec_cursor() is None
            &&& after.accounts_store.spec_target() == Map::<u64, Seq<u8>>::empty()
        },
    }
}

/// What a scheduling step does: the dataset stays; a migration in progress copies
/// `MIGRATION_STEP_SIZE` more keys, or completes when no more than that were left, after
/// which the target's schema is authoritative (and recorded, for the partitioned schema).
pub open spec fn migration_stepped(before: State, after: State, r: Result<(), StateError>) -> bool {
    &&& after.wf()
    &&& after@ == before@
    &&& after.performance == before.performance
    &&& before.accounts_store.spec_migration() is None ==> after.accounts_store
        == before.accounts_store && r is Ok
    &&& before.accounts_store.spec_migration() is Some ==> {
        let pending = pending_keys(before@, before.accounts_store.spec_cursor()).len();
        if pending <= MIGRATION_STEP_SIZE {
            &&& after.accounts_store.spec_migration() is None
            &&& after.spec_schema() == before.accounts_store.spec_target_schema().unwrap()
            &&& (after.spec_schema() == SchemaLabel::AccountsInStableMemory && r is Ok)
                ==> after.spec_cell(METADATA_MEMORY_ID) == spec_label_bytes(
                SchemaLabel::AccountsInStableMemory,
            )
        } else {
            &&& r is Ok
            &&& after.accounts_store.spec_migration() is Some
            &&& after.spec_schema() == before.spec_schema()
            &&& after.accounts_store.spec_target_schema()
                == before.accounts_store.spec_target_schema()
            &&& pending_keys(after@, after.accounts_store.spec_cursor()).len() == pending
                - MIGRATION_STEP_SIZE
        }
    }
    &&& r is Err ==> r == Err::<(), StateError>(StateError::Memory(PartitionsError::OutOfMemory))
}

/// What creating or replacing an entry does.
pub open spec fn entry_inserted(before: State, after: State, key: u64, value: Seq<u8>) -> bool {
    &&& after.wf()
    &&& after@ == before@.insert(key, value)
    &&& after.spec_schema() == before.spec_schema()
    &&& after.accounts_store.spec_target_schema() == before.accounts_store.spec_target_schema()
    &&& after.accounts_store.spec_cursor() == before.accounts_store.spec_cursor()
}

/// One operation of migration alone: a schema request, a scheduling step or an upgrade.
pub open spec fn migration_operation(before: State, after: State) -> bool {
    ||| exists|requested: Option<SchemaLabel>| schema_requested(before, after, requested)
    ||| exists|r: Result<(), StateError>| migration_stepped(before, after, r)
    ||| upgraded(before, after)
}

/// A migration operation keeps the dataset.
pub proof fn lemma_operation_keeps_dataset(before: State, after: State)
    requires
        before.wf(),
        migration_operation(before, after),
    ensures
        after@ == before@,
{
    if upgraded(before, after) {
        lemma_upgrade_keeps_dataset(before, after);
    }
}

/// One operation on the dataset: a migration operation or the creation of an entry.
pub open spec fn dataset_operation(before: State, after: State) -> bool {
    ||| migration_operation(before, after)
    ||| exists|k: u64, v: Seq<u8>| #[trigger] entry_inserted(before, after, k, v)
}

/// Across any sequence of schema requests, scheduling steps and upgrades, every state serves the
/// same dataset, so the entry count is the same mid-migration and after completion.
pub proof fn lemma_migration_keeps_dataset(states: Seq<State>)
    requires
        states.len() > 0,
        forall|i: int| 0 <= i < states.len() ==> (#[trigger] states[i]).wf(),
        forall|i: int|
            0 <= i < states.len() - 1 ==> #[trigger] migration_operation(states[i], states[i + 1]),
    ensures
        forall|i: int|
            0 <= i < states.len() ==> #[trigger] states[i]@ == states[0]@ && states[i]@.len()
                == states[0]@.len(),
    decreases states.len(),
{
    if states.len() > 1 {
        let prefix = states.drop_last();
        assert forall|i: int| 0 <= i < prefix.len() - 1 implies #[trigger] migration_operation(
            prefix[i],
            prefix[i + 1],
        ) by {
            assert(migration_operation(states[i], states[i + 1]));
        }
        assert forall|i: int| 0 <= i < prefix.len() implies (#[trigger] prefix[i]).wf() by {
            assert(states[i].wf());
        }
        lemma_migration_keeps_dataset(prefix);
        let n = states.len() - 1;
        let last = n - 1;
        assert(migration_operation(states[last], states[last + 1]));
        assert(states[last].wf());
        lemma_operation_keeps_dataset(states[last], states[last + 1]);
        assert(prefix[n - 1] == states[n - 1]);
        assert forall|i: int| 0 <= i < states.len() implies #[trigger] states[i]@ == states[0]@
            && states[i]@.len() == states[0]@.len() by {
            if i < n {
                assert(prefix[i] == states[i]);
            }
        }
    }
}

/// Across any sequence of entry creations, schema requests, scheduling steps and upgrades,
/// the entry count never decreases.
pub proof fn lemma_count_never_decreases(states: Seq<State>)
    requires
        states.len() > 0,
        forall|i: int| 0 <= i < states.len() ==> (#[trigger] states[i]).wf(),
        forall|i: int|
            0 <= i < states.len() - 1 ==> #[trigger] dataset_operation(states[i], states[i + 1]),
    ensures
        forall|i: int, j: int|
            0 <= i <= j < states.len() ==> (#[trigger] states[i])@.len() <= (
            #[trigger] states[j])@.len(),
    decreases states.len(),
{
    if states.len() > 1 {
        let prefix = states.drop_last();
        assert forall|i: int| 0 <= i < prefix.len() - 1 implies #[trigger] dataset_operation(
            prefix[i],
            prefix[i + 1],
        ) by {
            assert(dataset_operation(states[i], states[i + 1]));
        }
        assert forall|i: int| 0 <= i < prefix.len() implies (#[trigger] prefix[i]).wf() by {
            assert(states[i].wf());
        }
        lemma_count_never_decreases(prefix);
        let n = states.len() - 1;
        assert(prefix[n - 1] == states[n - 1]);
        assert(states[n - 1]@.len() <= states[n]@.len()) by {
            let last = n - 1;
            assert(dataset_operation(states[last], states[last + 1]));
            assert(states[last].wf());
            if migration_operation(states[last], states[last + 1]) {
                lemma_operation_keeps_dataset(states[last], states[last + 1]);
            }
            if !migration_operation(states[n - 1], states[n]) {
                let (k, v) = choose|k: u64, v: Seq<u8>|
                    #[trigger] entry_inserted(states[n - 1], states[n], k, v);
                let before = states[n - 1]@;
                assert(states[n - 1].wf());
                assert(before.dom().finite());
                if before.contains_key(k) {
                    assert(states[n]@.dom() =~= before.dom());
                } else {
                    assert(states[n]@.dom() =~= before.dom().insert(k));
                    assert(before.dom() =~= states[n]@.dom().remove(k));
                }
            }
        }
        assert forall|i: int, j: int| 0 <= i <= j < states.len() implies (
        #[trigger] states[i])@.len() <= (#[trigger] states[j])@.len() by {
            if j < n {
                assert(prefix[i] == states[i] && prefix[j] == states[j]);
            } else if i < n {
                assert(prefix[i] == states[i] && prefix[n - 1] == states[n - 1]);
            }
        }
    }
}

/// Requesting the schema that is already authoritative, with no migration in progress,
/// leaves the dataset store exactly as it was: nothing is copied and no migration starts.
pub proof fn lemma_request_current_schema_is_idle(before: State, after: State)
    requires
        before.accounts_store.spec_migration() is None,
        schema_requested(before, after, Some(before.spec_schema())),
    ensures
        after.accounts_store == before.accounts_store,
        after.accounts_store.spec_migration() is None,
{
}

/// Rolling back: requesting the authoritative schema while a migration toward the other one
/// is in progress leaves the dataset exactly as it was and drops the migration with its
/// cursor.
pub proof fn lemma_rollback_restores(states: Seq<State>, after: State)
    requires
        states.len() > 0,
        forall|i: int| 0 <= i < states.len() ==> (#[trigger] states[i]).wf(),
        states[0].accounts_store.spec_migration() is None,
        forall|i: int|
            0 <= i < states.len() - 1 ==> #[trigger] migration_operation(states[i], states[i + 1]),
        states.last().accounts_store.spec_migration() is Some,
        states.last().spec_schema() == states[0].spec_schema(),
        schema_requested(states.last(), after, Some(states[0].spec_schema())),
    ensures
        after@ == states[0]@,
        after.spec_schema() == states[0].spec_schema(),
        after.accounts_store.spec_migration() is None,
        after.accounts_store.spec_cursor() is None,
{
    lemma_migration_keeps_dataset(states);
    assert(states.last() == states[states.len() - 1]);
}

impl State {
    /// Acts on a requested schema as `spec_plan` decides. The dataset, the authoritative
    /// representation and the managed memory held stay as they are; a new migration starts
    /// with an empty target and no cursor.
    pub fn apply_schema_request(&mut self, requested: Option<SchemaLabel>)
        requires
            old(self).wf(),
        ensures
            schema_requested(*old(self), *final(self), requested),
    {
        let action = plan_migration(
            self.accounts_store.schema_label(),
            self.accounts_store.migration_target(),
            requested,
        );
        match action {
            MigrationAction::Keep => {},
            MigrationAction::Abort => self.accounts_store.abort_migration(),
            MigrationAction::Begin(t) => {
                self.accounts_store.abort_migration();
                let target = empty_db(t);
                self.accounts_store.begin_migration(target);
            },
        }
    }

    /// Applies the specified arguments to the state.
    pub fn with_arguments(self, arguments: &CanisterArguments) -> (r: State)
        requires
            self.wf(),
        ensures
            schema_requested(self, r, arguments.schema),
    {
        let mut state = self;
        state.apply_schema_request(arguments.schema);
        state
    }

    /// Applies the specified arguments, if provided.
    pub fn with_arguments_maybe(self, arguments_maybe: Option<&CanisterArguments>) -> (r: State)
        requires
            self.wf(),
        ensures
            match arguments_maybe {
                Some(a) => schema_requested(self, r, a.schema),
                None => r == self,
            },
    {
        match arguments_maybe {
            Some(arguments) => self.with_arguments(arguments),
            None => self,
        }
    }

    /// One scheduling step: copies up to `MIGRATION_STEP_SIZE` entries of the migration in
    /// progress. When the migration completes toward the partitioned schema, that schema is
    /// recorded in the metadata partition.
    pub fn step_migration(&mut self) -> (r: Result<(), StateError>)
        requires
            old(self).wf(),
        ensures
            migration_stepped(*old(self), *final(self), r),
    {
        let target = self.accounts_store.migration_target();
        self.accounts_store.step_migration(MIGRATION_STEP_SIZE);
        if target.is_some() && self.accounts_store.migration_target().is_none()
            && self.accounts_store.schema_label() == SchemaLabel::AccountsInStableMemory {
            match self.accounts_store.set_schema_label(SchemaLabel::AccountsInStableMemory) {
                Ok(()) => Ok(()),
                Err(e) => Err(StateError::Memory(e)),
            }
        } else {
            Ok(())
        }
    }

    /// Statistics of the state, computed now.
    pub fn get_stats(&self) -> (r: Stats)
        requires
            self.wf(),
        ensures
            r.schema == Some(spec_label_id(self.spec_schema())),
            r.accounts_count == self@.len(),
            self.accounts_store.spec_migration() is None ==> r.migration_countdown == Some(0u32),
            self.accounts_store.spec_migration() is Some ==> r.migration_countdown == Some(
                crate::perf::spec_saturating_count(
                    (self@.len() - self.accounts_store.spec_target().len() + 1) as nat,
                ),
            ),
            r.performance_counts@ == self.performance.instruction_counts@,
            r.exceptional_transactions_count == Some(
                crate::perf::spec_saturating_count(
                    crate::perf::spec_exceptional_ids(
                        self.performance.exceptional_transactions,
                    ).len(),
                ),
            ),
            r.periodic_tasks_count == self.performance.periodic_tasks_count,
    {
        let mut stats = Stats {
            schema: Some(self.schema_label().id()),
            accounts_count: self.entries_count(),
            migration_countdown: Some(self.accounts_store.migration_countdown()),
            performance_counts: Vec::new(),
            exceptional_transactions_count: None,
            periodic_tasks_count: None,
        };
        self.performance.get_stats(&mut stats);
        stats
    }
}

/// An empty representation of the given schema; one in managed memory opens the memory and
/// empties its accounts partition.
fn empty_db(schema: SchemaLabel) -> (r: AccountsDb)
    ensures
        r.wf(),
        r@ == Map::<u64, Seq<u8>>::empty(),
        schema_of(r) == schema,
{
    match schema {
        SchemaLabel::HeapMap => AccountsDb::new_heap(),
        SchemaLabel::AccountsInStableMemory => {
            let mut p = Partitions::open(ACCOUNTS_MEMORY_ID);
            p.reset_accounts(ACCOUNTS_MEMORY_ID);
            proof {
                assert(partition_accounts(p) =~= Map::<u64, Seq<u8>>::empty());
            }
            AccountsDb::Stable(p)
        },
    }
}

/// The schema that a migration recorded in the auxiliary state resumes toward: none when
/// the record names the schema already in use.
pub open spec fn resumed_target(current: SchemaLabel, recorded: Option<SchemaLabel>) -> Option<
    SchemaLabel,
> {
    match recorded {
        Some(t) => if t == current {
            None
        } else {
            Some(t)
        },
        None => None,
    }
}

/// Whether a state was loaded in the given schema, with the recorded migration resumed at
/// its cursor and the performance samples that the sample bytes hold.
pub open spec fn loaded_as(
    s: State,
    schema: SchemaLabel,
    recorded: (Option<SchemaLabel>, Option<u64>),
    samples: Seq<u8>,
) -> bool {
    &&& s.wf()
    &&& s.spec_schema() == schema
    &&& samples_restored(s.performance, samples)
    &&& s.accounts_store.spec_target_schema() == resumed_target(schema, recorded.0)
    &&& s.accounts_store.spec_target_schema() is Some ==> {
        &&& s.accounts_store.spec_cursor() == recorded.1
        &&& s.accounts_store.spec_target() == copied_entries(s@, recorded.1)
    }
}

/// Whether the bytes are a dataset encoding that the legacy load accepts.
pub open spec fn is_dataset_encoding(a: Seq<u8>) -> bool {
    exists|s: Seq<(u64, Vec<u8>)>| sorted_keys(s) && #[trigger] encodes(entries_view(s), a)
}

/// Whether `s` is what loading the legacy blob `bytes` gives: the dataset half is the
/// encoding of its entries, and the recorded migration resumes.
pub open spec fn legacy_decoded(bytes: Seq<u8>, s: State) -> bool {
    &&& candid_pair_of(bytes) matches Some((a, b))
    &&& spec_aux_of(b) matches Some(t)
    &&& loaded_as(s, SchemaLabel::HeapMap, t, aux_samples(b))
    &&& forall|e: Seq<(u64, Vec<u8>)>|
        sorted_keys(e) && #[trigger] encodes(entries_view(e), a) ==> s@ == map_of(e)
    &&& s.spec_blob_parts() == Some(
        (
            a,
            spec_aux_bytes(
                s.accounts_store.spec_target_schema(),
                s.accounts_store.spec_cursor(),
                perf_view(s.performance),
            ),
        ),
    )
}

/// Whether `v` is the legacy blob of `s`.
pub open spec fn legacy_encoded(s: State, v: Seq<u8>) -> bool {
    &&& s.spec_blob_parts() matches Some((a, b))
    &&& v == candid_pair_bytes(a, b)
    &&& candid_pair_of(v) == Some((a, b))
    &&& s.accounts_store.spec_authoritative() matches AccountsDb::Heap(db) && encodes(
        entries_view(db.spec_entries()),
        a,
    )
}

/// Whether `after` is `before` once `pre_upgrade` has written the auxiliary state and the
/// label into its managed memory, whose accounts partition holds the dataset.
pub open spec fn managed_image(before: State, after: State) -> bool {
    &&& after.spec_partitions() matches Some(p)
    &&& partition_accounts(p) == before@
    &&& cell_value(partition_cells(p), METADATA_MEMORY_ID) == spec_label_bytes(
        SchemaLabel::AccountsInStableMemory,
    )
    &&& cell_value(partition_cells(p), HEAP_MEMORY_ID) == spec_aux_bytes(
        before.accounts_store.spec_target_schema(),
        before.accounts_store.spec_cursor(),
        perf_view(before.performance),
    )
}

/// Whether `s` is what loading managed memory `p` gives: the partitioned schema, the map
/// of the accounts partition as the dataset, and the migration and samples recorded in the
/// heap partition.
pub open spec fn managed_loaded(p: Partitions, s: State) -> bool {
    &&& spec_label_in(cell_value(partition_cells(p), METADATA_MEMORY_ID)) == Ok::<
        Option<SchemaLabel>,
        crate::schema::SchemaLabelError,
    >(Some(SchemaLabel::AccountsInStableMemory))
    &&& spec_aux_of(cell_value(partition_cells(p), HEAP_MEMORY_ID)) matches Some(t) && loaded_as(
        s,
        SchemaLabel::AccountsInStableMemory,
        t,
        aux_samples(cell_value(partition_cells(p), HEAP_MEMORY_ID)),
    )
    &&& s.spec_partitions() == Some(p)
    &&& s@ == partition_accounts(p)
}

/// Loading a legacy blob and encoding the state again gives a blob whose dataset half is
/// byte for byte the one that was loaded, and whose auxiliary half records the migration
/// that the load resumed, with its cursor.
pub proof fn lemma_legacy_blob_round_trip(bytes: Seq<u8>, s: State, v: Seq<u8>)
    requires
        legacy_decoded(bytes, s),
        legacy_encoded(s, v),
    ensures
        candid_pair_of(v) matches Some((a2, b2)) && candid_pair_of(bytes) matches Some((a, b))
            && a2 == a && spec_aux_of(b2) == Some(
            (s.accounts_store.spec_target_schema(), s.accounts_store.spec_cursor()),
        ),
{
    lemma_aux_round_trip(
        s.accounts_store.spec_target_schema(),
        s.accounts_store.spec_cursor(),
        perf_view(s.performance),
    );
}

/// An upgrade through the legacy blob keeps the dataset, the schema and the migration in
/// progress with its cursor: loading the blob that `pre_upgrade` produced gives them back.
pub proof fn lemma_legacy_upgrade_round_trip(s: State, v: Seq<u8>, r: State)
    requires
        s.wf(),
        legacy_encoded(s, v),
        legacy_decoded(v, r),
    ensures
        r@ == s@,
        r.spec_schema() == s.spec_schema(),
        r.accounts_store.spec_target_schema() == s.accounts_store.spec_target_schema(),
        r.accounts_store.spec_cursor() == s.accounts_store.spec_cursor(),
{
    if let AccountsDb::Heap(db) = s.accounts_store.spec_authoritative() {
        lemma_aux_round_trip(
            s.accounts_store.spec_target_schema(),
            s.accounts_store.spec_cursor(),
            perf_view(s.performance),
        );
        assert(encodes(entries_view(db.spec_entries()), spec_encode_entries(entries_view(db.spec_entries()))));
        assert(r@ == map_of(db.spec_entries()));
    }
}

/// An upgrade through managed memory keeps the dataset, the schema and the migration in
/// progress with its cursor: loading the memory that `pre_upgrade` wrote gives them back.
pub proof fn lemma_managed_upgrade_round_trip(s: State, written: State, r: State)
    requires
        s.wf(),
        s.spec_schema() == SchemaLabel::AccountsInStableMemory,
        managed_image(s, written),
        managed_loaded(written.spec_partitions().unwrap(), r),
    ensures
        r@ == s@,
        r.spec_schema() == s.spec_schema(),
        r.accounts_store.spec_target_schema() == s.accounts_store.spec_target_schema(),
        r.accounts_store.spec_cursor() == s.accounts_store.spec_cursor(),
{
    lemma_aux_round_trip(
        s.accounts_store.spec_target_schema(),
        s.accounts_store.spec_cursor(),
        perf_view(s.performance),
    );
}

/// An upgrade: `pre_upgrade`, then loading what it left, through the legacy blob or through
/// managed memory.
pub open spec fn upgraded(before: State, after: State) -> bool {
    ||| exists|v: Seq<u8>| legacy_encoded(before, v) && #[trigger] legacy_decoded(v, after)
    ||| exists|written: State|
        before.spec_schema() == SchemaLabel::AccountsInStableMemory && #[trigger] managed_image(
            before,
            written,
        ) && managed_loaded(written.spec_partitions().unwrap(), after)
}

/// An upgrade keeps the dataset.
pub proof fn lemma_upgrade_keeps_dataset(before: State, after: State)
    requires
        before.wf(),
        upgraded(before, after),
    ensures
        after@ == before@,
        after.spec_schema() == before.spec_schema(),
{
    if exists|v: Seq<u8>| legacy_encoded(before, v) && #[trigger] legacy_decoded(v, after) {
        let v = choose|v: Seq<u8>| legacy_encoded(before, v) && #[trigger] legacy_decoded(v, after);
        lemma_legacy_upgrade_round_trip(before, v, after);
    } else {
        let written = choose|written: State|
            before.spec_schema() == SchemaLabel::AccountsInStableMemory && #[trigger] managed_image(
                before,
                written,
            ) && managed_loaded(written.spec_partitions().unwrap(), after);
        lemma_managed_upgrade_round_trip(before, written, after);
    }
}

impl State {
    /// Loads a state whose dataset is `db`, resuming the recorded migration at its cursor.
    fn loaded(db: AccountsDb, recorded: (Option<SchemaLabel>, Option<u64>), aux: &[u8]) -> (r:
        State)
        requires
            db.wf(),
        ensures
            loaded_as(r, schema_of(db), recorded, aux_samples(aux@)),
            r.accounts_store.spec_authoritative() == db,
    {
        let schema = db.schema_label();
        let mut state = State {
            accounts_store: AccountsStore::new(db),
            performance: decode_aux_samples(aux),
        };
        let (target, cursor) = recorded;
        match target {
            Some(t) => {
                if t != schema {
                    let target_db = empty_db(t);
                    state.accounts_store.resume_migration(target_db, cursor);
                }
            },
            None => {},
        }
        state
    }

    /// The legacy blob: the encoded dataset and the encoded auxiliary state as a Candid
    /// pair. Only the in-memory schema has one.
    pub fn encode(&self) -> (r: Result<Vec<u8>, StateError>)
        ensures
            r matches Ok(v) ==> legacy_encoded(*self, v@),
            self.spec_blob_parts() is Some ==> r is Ok,
            r is Err ==> self.spec_blob_parts() is None && r == Err::<Vec<u8>, StateError>(
                StateError::NotInMemory,
            ),
    {
        match self.accounts_store.authoritative() {
            AccountsDb::Heap(db) => {
                let dataset = db.encode();
                let aux = encode_aux(
                    self.accounts_store.migration_target(),
                    self.accounts_store.migration_cursor(),
                    &self.performance,
                );
                match encode_pair(&dataset, &aux) {
                    Ok(v) => Ok(v),
                    Err(_) => {
                        // Not reached: encoding two byte strings does not fail.
                        proof {
                            assert(false);
                        }
                        Err(StateError::NotInMemory)
                    },
                }
            },
            AccountsDb::Stable(_) => Err(StateError::NotInMemory),
        }
    }

    /// Loads a state from the legacy blob. A blob that is not a Candid pair, a dataset that
    /// does not decode, or auxiliary state that does not decode fails the whole load.
    pub fn decode(bytes: &[u8]) -> (r: Result<State, StateError>)
        ensures
            r matches Ok(s) ==> legacy_decoded(bytes@, s),
            (r == Err::<State, StateError>(StateError::UnreadableBlob)) <==> candid_pair_of(
                bytes@,
            ) is None,
            r == Err::<State, StateError>(StateError::CorruptDataset) ==> (candid_pair_of(bytes@)
                matches Some((a, _)) && !is_dataset_encoding(a)),
            r == Err::<State, StateError>(StateError::CorruptAuxiliary) ==> (candid_pair_of(bytes@)
                matches Some((a, b)) && is_dataset_encoding(a) && spec_aux_of(b) is None),
            r matches Err(e) ==> e is UnreadableBlob || e is CorruptDataset || e is CorruptAuxiliary,
    {
        let (dataset, aux) = match decode_pair(bytes) {
            Ok(p) => p,
            Err(_) => return Err(StateError::UnreadableBlob),
        };
        let db = match MapDb::decode(dataset.as_slice()) {
            Some(db) => db,
            None => return Err(StateError::CorruptDataset),
        };
        let recorded = match decode_aux(aux.as_slice()) {
            Some(t) => t,
            None => {
                proof {
                    assert(sorted_keys(db.spec_entries()) && encodes(
                        entries_view(db.spec_entries()),
                        dataset@,
                    ));
                }
                return Err(StateError::CorruptAuxiliary);
            },
        };
        proof {
            db.lemma_finite();
        }
        Ok(State::loaded(AccountsDb::Heap(db), recorded, aux.as_slice()))
    }

    /// Loads a state from managed memory, which must be labelled with the partitioned
    /// schema: the dataset is the map in its partition, and the auxiliary state is read from
    /// the heap partition.
    pub fn from_partitions(partitions: Partitions) -> (r: Result<State, StateError>)
        ensures
            r matches Ok(s) ==> managed_loaded(partitions, s),
            r matches Err(StateError::UnexpectedLabel { found }) ==> spec_label_in(
                cell_value(partition_cells(partitions), METADATA_MEMORY_ID),
            ) == Ok::<Option<SchemaLabel>, crate::schema::SchemaLabelError>(found) && found != Some(
                SchemaLabel::AccountsInStableMemory,
            ),
            r matches Err(StateError::Memory(PartitionsError::CorruptLabel(e))) ==> spec_label_in(
                cell_value(partition_cells(partitions), METADATA_MEMORY_ID),
            ) == Err::<Option<SchemaLabel>, crate::schema::SchemaLabelError>(e),
            r matches Err(StateError::CorruptAuxiliary) ==> spec_aux_of(
                cell_value(partition_cells(partitions), HEAP_MEMORY_ID),
            ) is None,
            r matches Err(e) ==> e is UnexpectedLabel || e is Memory || e is CorruptAuxiliary,
    {
        match partitions.schema_label() {
            Err(e) => Err(StateError::Memory(e)),
            Ok(Some(SchemaLabel::AccountsInStableMemory)) => {
                let _ = partitions.accounts_len();
                let aux = match partitions.load_heap() {
                    Ok(b) => b,
                    Err(e) => return Err(StateError::Memory(e)),
                };
                let recorded = match decode_aux(aux.as_slice()) {
                    Some(t) => t,
                    None => return Err(StateError::CorruptAuxiliary),
                };
                Ok(State::loaded(AccountsDb::Stable(partitions), recorded, aux.as_slice()))
            },
            Ok(found) => Err(StateError::UnexpectedLabel { found }),
        }
    }

    /// Saves what is not yet persistent before an upgrade. In the in-memory schema this is
    /// the legacy blob, handed back to be written to raw memory; in the partitioned schema
    /// the auxiliary state and the label are written to their partitions. The migration
    /// in progress is recorded by its target schema and its cursor.
    pub fn pre_upgrade(&mut self) -> (r: Result<UpgradeImage, StateError>)
        requires
            old(self).wf(),
        ensures
            final(self).wf(),
            final(self)@ == old(self)@,
            final(self).performance == old(self).performance,
            final(self).spec_schema() == old(self).spec_schema(),
            final(self).accounts_store.spec_migration() == old(self).accounts_store.spec_migration(),
            old(self).spec_schema() == SchemaLabel::HeapMap ==> {
                &&& *final(self) == *old(self)
                &&& r matches Ok(UpgradeImage::Raw(v)) && legacy_encoded(*old(self), v@)
            },
            old(self).spec_schema() == SchemaLabel::AccountsInStableMemory ==> {
                &&& final(self).spec_partitions() is Some
                &&& partition_accounts(final(self).spec_partitions().unwrap()) == old(self)@
                &&& r is Ok ==> r == Ok::<UpgradeImage, StateError>(UpgradeImage::Managed)
                    && managed_image(*old(self), *final(self))
                &&& r is Err ==> r == Err::<UpgradeImage, StateError>(
                    StateError::Memory(PartitionsError::OutOfMemory),
                )
            },
    {
        if self.accounts_store.schema_label() == SchemaLabel::HeapMap {
            return match self.encode() {
                Ok(v) => Ok(UpgradeImage::Raw(v)),
                Err(e) => Err(e),
            };
        }
        let aux = encode_aux(
            self.accounts_store.migration_target(),
            self.accounts_store.migration_cursor(),
            &self.performance,
        );
        match self.accounts_store.save_heap(aux) {
            Ok(()) => {},
            Err(e) => return Err(StateError::Memory(e)),
        }
        match self.accounts_store.set_schema_label(SchemaLabel::AccountsInStableMemory) {
            Ok(()) => {},
            Err(e) => return Err(StateError::Memory(e)),
        }
        Ok(UpgradeImage::Managed)
    }
}

impl Default for State {
    /// An empty dataset in the in-memory schema.
    fn default() -> (r: State)
        ensures
            r.wf(),
            r@ == Map::<u64, Seq<u8>>::empty(),
            r.spec_schema() == SchemaLabel::HeapMap,
            r.accounts_store.spec_migration() is None,
            no_samples(r.performance),
            !r.uses_partitions(),
            r.spec_partitions() is None,
    {
        State::new_heap()
    }
}

/// Saves an instruction count that was captured independently.
pub fn save_instruction_count(state: &mut State, count: PerformanceCount)
    ensures
        final(state).performance.instruction_counts@ == crate::perf::spec_after_save(
            old(state).performance.instruction_counts@,
            count,
        ),
        final(state).performance.exceptional_transactions == old(
            state,
        ).performance.exceptional_transactions,
        final(state).performance.periodic_tasks_count == old(state).performance.periodic_tasks_count,
        final(state).accounts_store == old(state).accounts_store,
{
    state.performance.save_instruction_count(count);
}

/// Saves an instruction count with the given label, taken at the given time.
pub fn record_instruction_count(
    state: &mut State,
    name: &str,
    timestamp_ns_since_epoch: u64,
    instruction_count: u64,
)
    ensures
        final(state).performance.instruction_counts@.len() > 0,
        final(state).performance.instruction_counts@.last().name@ == name@,
        final(state).performance.instruction_counts@.last().timestamp_ns_since_epoch
            == timestamp_ns_since_epoch,
        final(state).performance.instruction_counts@.last().instruction_count == instruction_count,
        final(state).performance.instruction_counts@.drop_last() =~= {
            let old_counts = old(state).performance.instruction_counts@;
            if old_counts.len() >= crate::perf::MAX_INSTRUCTION_COUNTS {
                old_counts.drop_first()
            } else {
                old_counts
            }
        },
        final(state).performance.exceptional_transactions == old(
            state,
        ).performance.exceptional_transactions,
        final(state).performance.periodic_tasks_count == old(state).performance.periodic_tasks_count,
        final(state).accounts_store == old(state).accounts_store,
{
    save_instruction_count(
        state,
        PerformanceCount::new(name, timestamp_ns_since_epoch, instruction_count),
    );
}

} // verus!
