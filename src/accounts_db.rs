//! The dataset behind one authoritative representation, and the bounded-step,
//! resumable migration of its entries into the other representation.
use vstd::prelude::*;
use vstd::slice::slice_to_vec;
use crate::map_db::{after_cursor, is_next_key, none_after, MapDb};
use crate::schema::SchemaLabel;
use crate::partitions::{partition_accounts, partition_cells, Partitions, PartitionsError};

verus! {

/// One representation of the dataset.
pub enum AccountsDb {
    /// Entries held in memory, serialized wholesale on upgrade.
    Heap(MapDb),
    /// Entries held in a map in their own memory partition.
    Stable(Partitions),
}

impl View for AccountsDb {
    type V = Map<u64, Seq<u8>>;

    open spec fn view(&self) -> Map<u64, Seq<u8>> {
        match self {
            AccountsDb::Heap(db) => db@,
            AccountsDb::Stable(p) => partition_accounts(*p),
        }
    }
}

/// The schema that a representation implements.
pub open spec fn schema_of(db: AccountsDb) -> SchemaLabel {
    match db {
        AccountsDb::Heap(_) => SchemaLabel::HeapMap,
        AccountsDb::Stable(_) => SchemaLabel::AccountsInStableMemory,
    }
}

impl AccountsDb {
    /// The representation is well formed and holds finitely many entries.
    pub open spec fn wf(&self) -> bool {
        &&& self@.dom().finite()
        &&& match self {
            AccountsDb::Heap(db) => db.wf(),
            AccountsDb::Stable(_) => true,
        }
    }

    /// An empty in-memory representation.
    pub fn new_heap() -> (r: AccountsDb)
        ensures
            r.wf(),
            r@ == Map::<u64, Seq<u8>>::empty(),
            schema_of(r) == SchemaLabel::HeapMap,
    {
        let db = MapDb::new();
        proof {
            db.lemma_finite();
        }
        AccountsDb::Heap(db)
    }

    /// The schema that this representation implements.
    pub fn schema_label(&self) -> (r: SchemaLabel)
        ensures
            r == schema_of(*self),
    {
        match self {
            AccountsDb::Heap(_) => SchemaLabel::HeapMap,
            AccountsDb::Stable(_) => SchemaLabel::AccountsInStableMemory,
        }
    }

    /// Number of entries.
    pub fn len(&self) -> (r: u64)
        requires
            self.wf(),
        ensures
            r == self@.len(),
    {
        match self {
            AccountsDb::Heap(db) => db.len() as u64,
            AccountsDb::Stable(p) => p.accounts_len(),
        }
    }

    /// A copy of the value under `key`.
    pub fn get(&self, key: u64) -> (r: Option<Vec<u8>>)
        requires
            self.wf(),
        ensures
            r is Some <==> self@.contains_key(key),
            r matches Some(v) ==> v@ == self@[key],
    {
        match self {
            AccountsDb::Heap(db) => match db.get(key) {
                Some(v) => Some(slice_to_vec(v.as_slice())),
                None => None,
            },
            AccountsDb::Stable(p) => p.get_account(key),
        }
    }

    /// Sets the value under `key`.
    pub fn insert(&mut self, key: u64, value: Vec<u8>)
        requires
            old(self).wf(),
        ensures
            final(self).wf(),
            final(self)@ == old(self)@.insert(key, value@),
            schema_of(*final(self)) == schema_of(*old(self)),
    {
        match self {
            AccountsDb::Heap(db) => {
                db.insert(key, value);
                proof {
                    db.lemma_finite();
                }
            },
            AccountsDb::Stable(p) => p.insert_account(key, value),
        }
    }

    /// Removes the entry under `key`, returning its value.
    pub fn remove(&mut self, key: u64) -> (r: Option<Vec<u8>>)
        requires
            old(self).wf(),
        ensures
            final(self).wf(),
            final(self)@ == old(self)@.remove(key),
            schema_of(*final(self)) == schema_of(*old(self)),
            r is Some <==> old(self)@.contains_key(key),
            r matches Some(v) ==> v@ == old(self)@[key],
    {
        match self {
            AccountsDb::Heap(db) => {
                let r = db.remove(key);
                proof {
                    db.lemma_finite();
                }
                r
            },
            AccountsDb::Stable(p) => p.remove_account(key),
        }
    }

    /// The entry with the smallest key after the cursor.
    pub fn first_after(&self, cursor: Option<u64>) -> (r: Option<(u64, Vec<u8>)>)
        requires
            self.wf(),
        ensures
            r matches Some((k, v)) ==> is_next_key(self@, cursor, k) && v@ == self@[k],
            r is None ==> none_after(self@, cursor),
    {
        match self {
            AccountsDb::Heap(db) => match db.first_after(cursor) {
                Some((k, v)) => Some((k, slice_to_vec(v.as_slice()))),
                None => None,
            },
            AccountsDb::Stable(p) => p.first_account_after(cursor),
        }
    }
}

/// The keys of `m` that the migration has still to reach.
pub open spec fn pending_keys(m: Map<u64, Seq<u8>>, cursor: Option<u64>) -> Set<u64> {
    m.dom().filter(|k: u64| after_cursor(cursor, k))
}

/// The entries of `m` that a migration with cursor `cursor` has copied: those whose keys
/// are not after the cursor.
pub open spec fn copied_entries(m: Map<u64, Seq<u8>>, cursor: Option<u64>) -> Map<u64, Seq<u8>> {
    m.restrict(m.dom().filter(|k: u64| !after_cursor(cursor, k)))
}

/// Whether key `k` comes after the cursor.
fn is_after(cursor: Option<u64>, k: u64) -> (r: bool)
    ensures
        r == after_cursor(cursor, k),
{
    match cursor {
        Some(c) => c < k,
        None => true,
    }
}

/// What holds between the source and the target of a migration whose cursor is
/// `cursor`: every entry of the target is an entry of the source, and every key of the
/// source up to the cursor is in the target.
pub open spec fn migration_inv(
    source: Map<u64, Seq<u8>>,
    target: Map<u64, Seq<u8>>,
    cursor: Option<u64>,
) -> bool {
    &&& source.dom().finite()
    &&& target.dom().finite()
    &&& forall|k: u64| #[trigger]
        target.contains_key(k) ==> source.contains_key(k) && source[k] == target[k]
    &&& forall|k: u64| #[trigger]
        source.contains_key(k) && !after_cursor(cursor, k) ==> target.contains_key(k)
}

/// Once no key of the source is after the cursor, the target holds exactly the source's
/// entries: a migration that was interrupted and resumed any number of times ends with
/// the same target as one that copied every entry in one pass.
pub proof fn lemma_completed_target_is_source(
    source: Map<u64, Seq<u8>>,
    target: Map<u64, Seq<u8>>,
    cursor: Option<u64>,
)
    requires
        migration_inv(source, target, cursor),
        none_after(source, cursor),
    ensures
        target == source,
{
    assert(target =~= source);
}

/// Copying the entry with the next key and moving the cursor onto it keeps the migration
/// invariant, and leaves one key fewer to reach.
pub proof fn lemma_copy_next(
    source: Map<u64, Seq<u8>>,
    target: Map<u64, Seq<u8>>,
    cursor: Option<u64>,
    k: u64,
)
    requires
        migration_inv(source, target, cursor),
        is_next_key(source, cursor, k),
    ensures
        migration_inv(source, target.insert(k, source[k]), Some(k)),
        pending_keys(source, Some(k)) == pending_keys(source, cursor).remove(k),
        pending_keys(source, Some(k)).len() + 1 == pending_keys(source, cursor).len(),
        pending_keys(source, cursor).finite(),
{
    let t2 = target.insert(k, source[k]);
    assert forall|x: u64| #[trigger]
        source.contains_key(x) && !after_cursor(Some(k), x) implies t2.contains_key(x) by {
        if x != k && after_cursor(cursor, x) {
            assert(k <= x);
        }
    }
    assert(pending_keys(source, Some(k)) =~= pending_keys(source, cursor).remove(k));
    source.dom().lemma_len_filter(|x: u64| after_cursor(cursor, x));
    vstd::set::axiom_set_remove_len(pending_keys(source, cursor), k);
}

/// An ongoing migration: the target representation and the last key copied into it.
pub struct Migration {
    db: AccountsDb,
    cursor: Option<u64>,
}

/// The dataset: the authoritative representation, which serves every read, and the
/// migration in progress, if any, whose target receives every write as well.
pub struct AccountsStore {
    authoritative: AccountsDb,
    migration: Option<Migration>,
}

impl View for AccountsStore {
    type V = Map<u64, Seq<u8>>;

    open spec fn view(&self) -> Map<u64, Seq<u8>> {
        self.spec_authoritative()@
    }
}

impl AccountsStore {
    /// The representation that serves reads.
    pub closed spec fn spec_authoritative(&self) -> AccountsDb {
        self.authoritative
    }

    /// The target and cursor of the migration in progress.
    pub closed spec fn spec_migration(&self) -> Option<(AccountsDb, Option<u64>)> {
        match self.migration {
            Some(m) => Some((m.db, m.cursor)),
            None => None,
        }
    }

    /// The authoritative schema.
    pub open spec fn spec_schema(&self) -> SchemaLabel {
        schema_of(self.spec_authoritative())
    }

    /// The schema that a migration in progress moves to.
    pub open spec fn spec_target_schema(&self) -> Option<SchemaLabel> {
        match self.spec_migration() {
            Some((t, _)) => Some(schema_of(t)),
            None => None,
        }
    }

    /// The entries of the migration target.
    pub open spec fn spec_target(&self) -> Map<u64, Seq<u8>> {
        match self.spec_migration() {
            Some((t, _)) => t@,
            None => Map::empty(),
        }
    }

    /// The migration cursor: the last key copied.
    pub open spec fn spec_cursor(&self) -> Option<u64> {
        match self.spec_migration() {
            Some((_, c)) => c,
            None => None,
        }
    }

    /// Both representations are well formed; a target implements the other schema and
    /// agrees with the source as far as the cursor.
    pub open spec fn wf(&self) -> bool {
        &&& self.spec_authoritative().wf()
        &&& match self.spec_migration() {
            Some((t, c)) => {
                &&& t.wf()
                &&& schema_of(t) != self.spec_schema()
                &&& migration_inv(self@, t@, c)
            },
            None => true,
        }
    }

    /// A store served by the given representation, with no migration in progress.
    pub fn new(db: AccountsDb) -> (r: AccountsStore)
        requires
            db.wf(),
        ensures
            r.wf(),
            r.spec_authoritative() == db,
            r.spec_migration() is None,
    {
        AccountsStore { authoritative: db, migration: None }
    }

    /// The managed memory of the authoritative representation, when it is the partitioned
    /// one.
    pub open spec fn spec_memory(&self) -> Option<Partitions> {
        match self.spec_authoritative() {
            AccountsDb::Stable(p) => Some(p),
            AccountsDb::Heap(_) => None,
        }
    }

    /// Gives up the store for its authoritative representation.
    pub fn into_authoritative(self) -> (r: AccountsDb)
        ensures
            r == self.spec_authoritative(),
    {
        self.authoritative
    }

    /// Records the schema label in the managed memory of the authoritative representation.
    pub fn set_schema_label(&mut self, label: SchemaLabel) -> (r: Result<(), PartitionsError>)
        requires
            old(self).wf(),
            old(self).spec_memory() is Some,
        ensures
            final(self).wf(),
            final(self)@ == old(self)@,
            final(self).spec_migration() == old(self).spec_migration(),
            final(self).spec_schema() == old(self).spec_schema(),
            final(self).spec_memory() matches Some(p) && partition_accounts(p) == partition_accounts(
                old(self).spec_memory().unwrap(),
            ) && (r is Ok ==> partition_cells(p) == partition_cells(
                old(self).spec_memory().unwrap(),
            ).insert(crate::partitions::METADATA_MEMORY_ID, crate::schema::spec_label_bytes(label)))
                && (r is Err ==> r == Err::<(), PartitionsError>(PartitionsError::OutOfMemory)
                && partition_cells(p) == partition_cells(old(self).spec_memory().unwrap())),
    {
        match &mut self.authoritative {
            AccountsDb::Stable(p) => p.set_schema_label(label),
            AccountsDb::Heap(_) => Ok(()),
        }
    }

    /// Writes the auxiliary state into the managed memory of the authoritative
    /// representation.
    pub fn save_heap(&mut self, bytes: Vec<u8>) -> (r: Result<(), PartitionsError>)
        requires
            old(self).wf(),
            old(self).spec_memory() is Some,
        ensures
            final(self).wf(),
            final(self)@ == old(self)@,
            final(self).spec_migration() == old(self).spec_migration(),
            final(self).spec_schema() == old(self).spec_schema(),
            final(self).spec_memory() matches Some(p) && partition_accounts(p) == partition_accounts(
                old(self).spec_memory().unwrap(),
            ) && (r is Ok ==> partition_cells(p) == partition_cells(
                old(self).spec_memory().unwrap(),
            ).insert(crate::partitions::HEAP_MEMORY_ID, bytes@)) && (r is Err ==> r == Err::<
                (),
                PartitionsError,
            >(PartitionsError::OutOfMemory) && partition_cells(p) == partition_cells(
                old(self).spec_memory().unwrap(),
            )),
    {
        match &mut self.authoritative {
            AccountsDb::Stable(p) => p.save_heap(bytes),
            AccountsDb::Heap(_) => Ok(()),
        }
    }

    /// The authoritative representation.
    pub fn authoritative(&self) -> (r: &AccountsDb)
        ensures
            *r == self.spec_authoritative(),
    {
        &self.authoritative
    }

    /// The authoritative schema.
    pub fn schema_label(&self) -> (r: SchemaLabel)
        ensures
            r == self.spec_schema(),
    {
        self.authoritative.schema_label()
    }

    /// The schema that a migration in progress moves to.
    pub fn migration_target(&self) -> (r: Option<SchemaLabel>)
        ensures
            r == self.spec_target_schema(),
    {
        match &self.migration {
            Some(m) => Some(m.db.schema_label()),
            None => None,
        }
    }

    /// Number of entries.
    pub fn len(&self) -> (r: u64)
        requires
            self.wf(),
        ensures
            r == self@.len(),
    {
        self.authoritative.len()
    }

    /// A copy of the value under `key`, read from the authoritative representation.
    pub fn get(&self, key: u64) -> (r: Option<Vec<u8>>)
        requires
            self.wf(),
        ensures
            r is Some <==> self@.contains_key(key),
            r matches Some(v) ==> v@ == self@[key],
    {
        self.authoritative.get(key)
    }

    /// Sets the value under `key`, in the migration target too.
    pub fn insert(&mut self, key: u64, value: Vec<u8>)
        requires
            old(self).wf(),
        ensures
            final(self).wf(),
            final(self)@ == old(self)@.insert(key, value@),
            final(self).spec_schema() == old(self).spec_schema(),
            final(self).spec_target_schema() == old(self).spec_target_schema(),
            final(self).spec_cursor() == old(self).spec_cursor(),
    {
        match &mut self.migration {
            Some(m) => {
                let copy = slice_to_vec(value.as_slice());
                m.db.insert(key, copy);
            },
            None => {},
        }
        self.authoritative.insert(key, value);
        proof {
            if let Some(m) = &self.migration {
                let s = self.authoritative@;
                let t = m.db@;
                assert forall|k: u64| #[trigger] t.contains_key(k) implies s.contains_key(k)
                    && s[k] == t[k] by {
                    if k != key {
                        assert(old(self).spec_target().contains_key(k));
                    }
                }
                assert forall|k: u64| #[trigger]
                    s.contains_key(k) && !after_cursor(m.cursor, k) implies t.contains_key(k) by {
                    if k != key {
                        assert(old(self)@.contains_key(k));
                    }
                }
            }
        }
    }

    /// Removes the entry under `key`, from the migration target too.
    pub fn remove(&mut self, key: u64) -> (r: Option<Vec<u8>>)
        requires
            old(self).wf(),
        ensures
            final(self).wf(),
            final(self)@ == old(self)@.remove(key),
            final(self).spec_schema() == old(self).spec_schema(),
            final(self).spec_target_schema() == old(self).spec_target_schema(),
            final(self).spec_cursor() == old(self).spec_cursor(),
            r is Some <==> old(self)@.contains_key(key),
            r matches Some(v) ==> v@ == old(self)@[key],
    {
        match &mut self.migration {
            Some(m) => {
                m.db.remove(key);
            },
            None => {},
        }
        let r = self.authoritative.remove(key);
        proof {
            if let Some(m) = &self.migration {
                let s = self.authoritative@;
                let t = m.db@;
                assert forall|k: u64| #[trigger] t.contains_key(k) implies s.contains_key(k)
                    && s[k] == t[k] by {
                    assert(old(self).spec_target().contains_key(k));
                }
                assert forall|k: u64| #[trigger]
                    s.contains_key(k) && !after_cursor(m.cursor, k) implies t.contains_key(k) by {
                    assert(old(self)@.contains_key(k));
                }
            }
        }
        r
    }

    /// Starts a migration into `target`, an empty representation of the other schema.
    /// Nothing is copied yet and reads are still served by the current representation.
    pub fn begin_migration(&mut self, target: AccountsDb)
        requires
            old(self).wf(),
            old(self).spec_migration() is None,
            target.wf(),
            target@ == Map::<u64, Seq<u8>>::empty(),
            schema_of(target) != old(self).spec_schema(),
        ensures
            final(self).wf(),
            final(self)@ == old(self)@,
            final(self).spec_authoritative() == old(self).spec_authoritative(),
            final(self).spec_migration() == Some((target, None::<u64>)),
    {
        self.migration = Some(Migration { db: target, cursor: None });
    }

    /// Resumes a migration into `target`, an empty representation of the other schema, at a
    /// cursor that was persisted: the entries up to the cursor are copied, and the migration
    /// goes on from there. Reads are still served by the current representation.
    pub fn resume_migration(&mut self, target: AccountsDb, cursor: Option<u64>)
        requires
            old(self).wf(),
            old(self).spec_migration() is None,
            target.wf(),
            target@ == Map::<u64, Seq<u8>>::empty(),
            schema_of(target) != old(self).spec_schema(),
        ensures
            final(self).wf(),
            final(self)@ == old(self)@,
            final(self).spec_authoritative() == old(self).spec_authoritative(),
            final(self).spec_target_schema() == Some(schema_of(target)),
            final(self).spec_cursor() == cursor,
            final(self).spec_target() == copied_entries(old(self)@, cursor),
    {
        let ghost source = self.authoritative@;
        let mut db = target;
        let mut at: Option<u64> = None;
        let mut done = false;
        proof {
            source.dom().lemma_len_filter(|x: u64| after_cursor(at, x));
        }
        while !done
            invariant
                self.authoritative.wf(),
                self.authoritative@ == source,
                self.authoritative == old(self).spec_authoritative(),
                self.migration is None,
                db.wf(),
                schema_of(db) == schema_of(target),
                schema_of(db) != schema_of(self.authoritative),
                migration_inv(source, db@, at),
                forall|k: u64| #[trigger] db@.contains_key(k) ==> !after_cursor(cursor, k),
                pending_keys(source, at).finite(),
                done ==> forall|k: u64|
                    source.contains_key(k) && after_cursor(at, k) ==> #[trigger] after_cursor(
                        cursor,
                        k,
                    ),
            decreases pending_keys(source, at).len() + (if done {
                0int
            } else {
                1int
            }),
        {
            match self.authoritative.first_after(at) {
                Some((k, v)) => {
                    if is_after(cursor, k) {
                        proof {
                            assert forall|k2: u64|
                                source.contains_key(k2) && after_cursor(
                                    at,
                                    k2,
                                ) implies #[trigger] after_cursor(cursor, k2) by {
                                assert(k <= k2);
                            }
                        }
                        done = true;
                    } else {
                        proof {
                            lemma_copy_next(source, db@, at, k);
                        }
                        db.insert(k, v);
                        at = Some(k);
                    }
                },
                None => {
                    done = true;
                },
            }
        }
        proof {
            assert forall|k: u64| #[trigger]
                source.contains_key(k) && !after_cursor(cursor, k) implies db@.contains_key(k) by {
                if after_cursor(at, k) {
                    assert(after_cursor(cursor, k));
                }
            }
            assert(db@ =~= copied_entries(source, cursor));
        }
        self.migration = Some(Migration { db, cursor });
    }

    /// The cursor of the migration in progress: the last key copied.
    pub fn migration_cursor(&self) -> (r: Option<u64>)
        ensures
            r == self.spec_cursor(),
    {
        match &self.migration {
            Some(m) => m.cursor,
            None => None,
        }
    }

    /// Abandons the migration in progress, if any: the authoritative representation and
    /// its entries stay as they are, and the target is dropped with the cursor.
    pub fn abort_migration(&mut self)
        requires
            old(self).wf(),
        ensures
            final(self).wf(),
            final(self)@ == old(self)@,
            final(self).spec_authoritative() == old(self).spec_authoritative(),
            final(self).spec_migration() is None,
    {
        self.migration = None;
    }

    /// Number of entries that the migration in progress has still to copy, plus one; zero
    /// when no migration is in progress. Saturates at `u32::MAX`.
    pub fn migration_countdown(&self) -> (r: u32)
        requires
            self.wf(),
        ensures
            self.spec_migration() is None ==> r == 0,
            self.spec_migration() is Some ==> r == crate::perf::spec_saturating_count(
                (self@.len() - self.spec_target().len() + 1) as nat,
            ),
            self.spec_migration() is Some ==> r > 0,
    {
        match &self.migration {
            None => 0,
            Some(m) => {
                let source_len = self.authoritative.len();
                let target_len = m.db.len();
                proof {
                    vstd::set_lib::lemma_len_subset(m.db@.dom(), self@.dom());
                }
                let left = source_len - target_len;
                if left >= u32::MAX as u64 {
                    u32::MAX
                } else {
                    (left + 1) as u32
                }
            },
        }
    }

    /// Copies the entries after the cursor into the target, at most `step_size` of them,
    /// in ascending key order. When no entry of the source is left after the cursor, the
    /// target becomes authoritative and the source is dropped. The dataset that reads see
    /// is the same before and after, whether or not the migration completes.
    pub fn step_migration(&mut self, step_size: u32)
        requires
            old(self).wf(),
        ensures
            final(self).wf(),
            final(self)@ == old(self)@,
            old(self).spec_migration() is None ==> *final(self) == *old(self),
            old(self).spec_migration() is Some ==> {
                let pending = pending_keys(old(self)@, old(self).spec_cursor()).len();
                if pending <= step_size {
                    &&& final(self).spec_migration() is None
                    &&& final(self).spec_schema() == old(self).spec_target_schema().unwrap()
                } else {
                    &&& final(self).spec_migration() is Some
                    &&& final(self).spec_schema() == old(self).spec_schema()
                    &&& final(self).spec_target_schema() == old(self).spec_target_schema()
                    &&& pending_keys(final(self)@, final(self).spec_cursor()).len() == pending
                        - step_size
                }
            },
    {
        let mut m = match self.migration.take() {
            Some(m) => m,
            None => return,
        };
        let ghost source = self.authoritative@;
        let ghost pending0 = pending_keys(source, m.cursor).len();
        proof {
            source.dom().lemma_len_filter(|x: u64| after_cursor(m.cursor, x));
        }
        let mut copied: u32 = 0;
        while copied < step_size
            invariant
                self.authoritative.wf(),
                self.authoritative@ == source,
                self.migration is None,
                old(self).spec_migration() is Some,
                pending0 == pending_keys(old(self)@, old(self).spec_cursor()).len(),
                m.db.wf(),
                schema_of(m.db) == schema_of(old(self).spec_migration().unwrap().0),
                schema_of(m.db) != schema_of(self.authoritative),
                self.authoritative == old(self).spec_authoritative(),
                migration_inv(source, m.db@, m.cursor),
                copied <= step_size,
                pending_keys(source, m.cursor).finite(),
                pending_keys(source, m.cursor).len() + copied == pending0,
            decreases step_size - copied,
        {
            match self.authoritative.first_after(m.cursor) {
                Some((k, v)) => {
                    proof {
                        lemma_copy_next(source, m.db@, m.cursor, k);
                    }
                    m.db.insert(k, v);
                    m.cursor = Some(k);
                    copied = copied + 1;
                },
                None => {
                    proof {
                        assert(pending_keys(source, m.cursor) =~= Set::<u64>::empty());
                        lemma_completed_target_is_source(source, m.db@, m.cursor);
                    }
                    self.authoritative = m.db;
                    return;
                },
            }
        }
        match self.authoritative.first_after(m.cursor) {
            Some(_) => {
                self.migration = Some(m);
                proof {
                    assert(pending_keys(source, self.spec_cursor()).len() > 0) by {
                        let k = choose|k: u64| is_next_key(source, self.spec_cursor(), k);
                        assert(pending_keys(source, self.spec_cursor()).contains(k));
                    }
                }
            },
            None => {
                proof {
                    assert(pending_keys(source, m.cursor) =~= Set::<u64>::empty());
                    lemma_completed_target_is_source(source, m.db@, m.cursor);
                }
                self.authoritative = m.db;
            },
        }
    }
}

} // verus!
