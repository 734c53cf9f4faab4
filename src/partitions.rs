//! Named, independently growable regions of one persistent memory, and the schema
//! label recorded in the metadata region.
use vstd::prelude::*;
use vstd::bytes::{spec_u64_from_le_bytes, spec_u64_to_le_bytes, u64_from_le_bytes, u64_to_le_bytes};
use vstd::slice::slice_subrange;
use ic_stable_structures::cell::Cell;
use ic_stable_structures::memory_manager::{MemoryId, MemoryManager, VirtualMemory};
use ic_stable_structures::DefaultMemoryImpl;
use crate::schema::{spec_decode_label, spec_label_bytes, SchemaLabel, SchemaLabelError};
use crate::map_db::{is_next_key, none_after};
use std::ops::Bound;

verus! {

#[verifier::external_type_specification]
#[verifier::external_body]
pub struct ExCellInitError(ic_stable_structures::cell::InitError);

#[verifier::external_type_specification]
#[verifier::external_body]
pub struct ExCellValueError(ic_stable_structures::cell::ValueError);

/// The partition that holds the schema label.
pub const METADATA_MEMORY_ID: u8 = 0;

/// The partition that holds the flat-encoded auxiliary state.
pub const HEAP_MEMORY_ID: u8 = 1;

/// The partition that holds the partition-backed dataset.
pub const ACCOUNTS_MEMORY_ID: u8 = 2;

/// The bytes with which managed memory begins.
pub open spec fn managed_memory_magic() -> Seq<u8> {
    seq![0x4du8, 0x47u8, 0x52u8]
}

/// The bytes with which raw memory holding a legacy blob begins.
pub open spec fn raw_blob_magic() -> Seq<u8> {
    seq![0x42u8, 0x4cu8, 0x42u8, 0x01u8]
}

/// Number of bytes before a legacy blob in raw memory: the magic, then the blob's length.
pub const RAW_BLOB_HEADER_BYTES: usize = 12;

/// Whether a partition holds a single byte-string value.
pub open spec fn is_cell_partition(id: u8) -> bool {
    id == METADATA_MEMORY_ID || id == HEAP_MEMORY_ID
}

/// The partitions of one persistent memory, with the map that the accounts partition
/// holds.
#[verifier::external_body]
pub struct Partitions {
    manager: MemoryManager<DefaultMemoryImpl>,
    accounts: ic_stable_structures::BTreeMap<u64, Vec<u8>, VirtualMemory<DefaultMemoryImpl>>,
}

/// The entries of the map that the accounts partition holds.
pub uninterp spec fn partition_accounts(p: Partitions) -> Map<u64, Seq<u8>>;

/// Whether `m` holds finitely many entries, `n` of them.
pub open spec fn counts_entries(n: u64, m: Map<u64, Seq<u8>>) -> bool {
    m.dom().finite() && n == m.len()
}

/// The dataset with no entries.
pub open spec fn no_entries() -> Map<u64, Seq<u8>> {
    Map::empty()
}

/// The value held in each single-value partition; a partition that holds none reads as
/// empty.
pub uninterp spec fn partition_cells(p: Partitions) -> Map<u8, Seq<u8>>;

/// The value in partition `id`, or nothing when none was written.
pub open spec fn cell_value(cells: Map<u8, Seq<u8>>, id: u8) -> Seq<u8> {
    if cells.contains_key(id) {
        cells[id]
    } else {
        Seq::empty()
    }
}

/// What the schema label of memory with the given metadata bytes is: `None` when none
/// was ever written.
pub open spec fn spec_label_in(metadata: Seq<u8>) -> Result<Option<SchemaLabel>, SchemaLabelError> {
    if metadata.len() == 0 {
        Ok(None)
    } else {
        match spec_decode_label(metadata) {
            Ok(label) => Ok(Some(label)),
            Err(e) => Err(e),
        }
    }
}

/// Why managed memory could not be read or written.
#[derive(Clone, Copy, Debug, PartialEq, Eq, Structural)]
pub enum PartitionsError {
    /// A partition holds a value in a layout that this code cannot read.
    IncompatibleLayout,
    /// The memory could not grow to hold a value.
    OutOfMemory,
    /// The metadata partition holds bytes that are not a known schema label.
    CorruptLabel(SchemaLabelError),
}

/// Whether the first bytes of a memory mark it as managed memory.
pub fn is_managed_memory_header(header: &[u8]) -> (r: bool)
    ensures
        r == (header@.len() >= 3 && header@.subrange(0, 3) == managed_memory_magic()),
{
    if header.len() < 3 {
        return false;
    }
    let r = header[0] == 0x4du8 && header[1] == 0x47u8 && header[2] == 0x52u8;
    proof {
        if r {
            assert(header@.subrange(0, 3) =~= managed_memory_magic());
        } else if header@.subrange(0, 3) == managed_memory_magic() {
            assert(header@.subrange(0, 3)[0] == header@[0]);
            assert(header@.subrange(0, 3)[1] == header@[1]);
            assert(header@.subrange(0, 3)[2] == header@[2]);
        }
    }
    r
}

/// The header written before a legacy blob of `len` bytes in raw memory.
pub fn raw_blob_header(len: u64) -> (r: Vec<u8>)
    ensures
        r@ == raw_blob_magic() + spec_u64_to_le_bytes(len),
        r@.len() == RAW_BLOB_HEADER_BYTES,
{
    let mut r: Vec<u8> = vec![0x42u8, 0x4cu8, 0x42u8, 0x01u8];
    let mut len_bytes = u64_to_le_bytes(len);
    r.append(&mut len_bytes);
    assert(r@ =~= raw_blob_magic() + spec_u64_to_le_bytes(len));
    r
}

/// The length of the legacy blob that raw memory holds, read from its header; `None` when
/// the memory does not begin with a blob header.
pub fn raw_blob_length(header: &[u8]) -> (r: Option<u64>)
    ensures
        header@.len() >= RAW_BLOB_HEADER_BYTES && header@.subrange(0, 4) == raw_blob_magic() ==> r
            == Some(spec_u64_from_le_bytes(header@.subrange(4, 12))),
        !(header@.len() >= RAW_BLOB_HEADER_BYTES && header@.subrange(0, 4) == raw_blob_magic())
            ==> r is None,
{
    if header.len() < RAW_BLOB_HEADER_BYTES {
        return None;
    }
    if header[0] != 0x42u8 || header[1] != 0x4cu8 || header[2] != 0x42u8 || header[3] != 0x01u8 {
        proof {
            if header@.subrange(0, 4) == raw_blob_magic() {
                assert(header@.subrange(0, 4)[0] == header@[0]);
                assert(header@.subrange(0, 4)[1] == header@[1]);
                assert(header@.subrange(0, 4)[2] == header@[2]);
                assert(header@.subrange(0, 4)[3] == header@[3]);
            }
        }
        return None;
    }
    assert(header@.subrange(0, 4) =~= raw_blob_magic());
    Some(u64_from_le_bytes(slice_subrange(header, 4, 12)))
}

/// How the persistent memory found at start-up is laid out.
#[derive(Clone, Copy, Debug, PartialEq, Eq, Structural)]
pub enum MemoryLayout {
    /// Nothing was ever written.
    Empty,
    /// Managed memory, with its partitions.
    Managed,
    /// A legacy blob of the given length after its header.
    Legacy { length: u64 },
}

/// The layout of persistent memory of `size` bytes whose first bytes are `header`: none
/// when the memory holds something that is neither managed memory nor a whole legacy blob.
pub open spec fn spec_memory_layout(header: Seq<u8>, size: u64) -> Option<MemoryLayout> {
    if header.len() >= 3 && header.subrange(0, 3) == managed_memory_magic() {
        Some(MemoryLayout::Managed)
    } else if header.len() >= RAW_BLOB_HEADER_BYTES && header.subrange(0, 4) == raw_blob_magic() {
        let length = spec_u64_from_le_bytes(header.subrange(4, 12));
        if size >= RAW_BLOB_HEADER_BYTES && length <= size - RAW_BLOB_HEADER_BYTES {
            Some(MemoryLayout::Legacy { length })
        } else {
            None
        }
    } else if size == 0 {
        Some(MemoryLayout::Empty)
    } else {
        None
    }
}

/// Decides how persistent memory is laid out from its first bytes and its size in bytes.
/// Memory that is neither empty, managed, nor a whole legacy blob is refused.
pub fn memory_layout(header: &[u8], size: u64) -> (r: Option<MemoryLayout>)
    ensures
        r == spec_memory_layout(header@, size),
{
    if is_managed_memory_header(header) {
        return Some(MemoryLayout::Managed);
    }
    match raw_blob_length(header) {
        Some(length) => {
            if size >= RAW_BLOB_HEADER_BYTES as u64 && length <= size - RAW_BLOB_HEADER_BYTES as u64 {
                Some(MemoryLayout::Legacy { length })
            } else {
                None
            }
        },
        None => {
            if size == 0 {
                Some(MemoryLayout::Empty)
            } else {
                None
            }
        },
    }
}

impl Partitions {
    /// Relies on `MemoryManager::init` and `ic_stable_structures::BTreeMap::init`:
    /// attaches to the process's persistent memory, loading the partitions already there
    /// and the map in the accounts partition (an empty one when it holds none).
    #[verifier::external_body]
    pub fn open(accounts_id: u8) -> (r: Partitions)
        requires
            accounts_id == ACCOUNTS_MEMORY_ID,
        ensures
            partition_accounts(r).dom().finite(),
    {
        let manager = MemoryManager::init(DefaultMemoryImpl::default());
        let accounts = ic_stable_structures::BTreeMap::init(manager.get(MemoryId::new(accounts_id)));
        Partitions { manager, accounts }
    }

    /// Relies on `ic_stable_structures::cell::Cell::init`: loads the value in the
    /// partition, or finds none (and writes the empty value there).
    #[verifier::external_body]
    fn read_cell(&self, id: u8) -> (r: Result<Vec<u8>, ic_stable_structures::cell::InitError>)
        requires
            is_cell_partition(id),
        ensures
            r matches Ok(v) ==> v@ == cell_value(partition_cells(*self), id),
    {
        Cell::init(self.manager.get(MemoryId::new(id)), Vec::new()).map(|c| c.get().clone())
    }

    /// Relies on `ic_stable_structures::cell::Cell::new`: writes the value into the
    /// partition, or changes nothing when the memory cannot grow to hold it.
    #[verifier::external_body]
    fn write_cell(&mut self, id: u8, value: Vec<u8>) -> (r: Result<
        (),
        ic_stable_structures::cell::ValueError,
    >)
        requires
            is_cell_partition(id),
        ensures
            r is Ok ==> partition_cells(*final(self)) == partition_cells(*old(self)).insert(
                id,
                value@,
            ),
            r is Err ==> partition_cells(*final(self)) == partition_cells(*old(self)),
            partition_accounts(*final(self)) == partition_accounts(*old(self)),
    {
        Cell::new(self.manager.get(MemoryId::new(id)), value).map(|_| ())
    }

    /// Relies on `ic_stable_structures::BTreeMap::new`: an empty map in the accounts
    /// partition, replacing whatever it held.
    #[verifier::external_body]
    pub fn reset_accounts(&mut self, accounts_id: u8)
        requires
            accounts_id == ACCOUNTS_MEMORY_ID,
        ensures
            partition_accounts(*final(self)) == no_entries(),
            partition_cells(*final(self)) == partition_cells(*old(self)),
    {
        self.accounts = ic_stable_structures::BTreeMap::new(self.manager.get(MemoryId::new(accounts_id)));
    }

    /// Relies on `ic_stable_structures::BTreeMap::insert`: the value under the key is
    /// replaced and the other entries stay.
    #[verifier::external_body]
    pub fn insert_account(&mut self, key: u64, value: Vec<u8>)
        ensures
            partition_accounts(*final(self)) == partition_accounts(*old(self)).insert(key, value@),
            partition_cells(*final(self)) == partition_cells(*old(self)),
    {
        self.accounts.insert(key, value);
    }

    /// Relies on `ic_stable_structures::BTreeMap::get`: the value under the key, if any.
    #[verifier::external_body]
    pub fn get_account(&self, key: u64) -> (r: Option<Vec<u8>>)
        ensures
            r is Some <==> partition_accounts(*self).contains_key(key),
            r matches Some(v) ==> v@ == partition_accounts(*self)[key],
    {
        self.accounts.get(&key)
    }

    /// Relies on `ic_stable_structures::BTreeMap::remove`: the entry under the key leaves
    /// and its value is returned.
    #[verifier::external_body]
    pub fn remove_account(&mut self, key: u64) -> (r: Option<Vec<u8>>)
        ensures
            partition_accounts(*final(self)) == partition_accounts(*old(self)).remove(key),
            partition_cells(*final(self)) == partition_cells(*old(self)),
            r is Some <==> partition_accounts(*old(self)).contains_key(key),
            r matches Some(v) ==> v@ == partition_accounts(*old(self))[key],
    {
        self.accounts.remove(&key)
    }

    /// Relies on `ic_stable_structures::BTreeMap::len`: the number of entries, of which
    /// there are finitely many.
    #[verifier::external_body]
    pub fn accounts_len(&self) -> (r: u64)
        ensures
            counts_entries(r, partition_accounts(*self)),
    {
        self.accounts.len()
    }

    /// Relies on `ic_stable_structures::BTreeMap::range`, which yields entries in
    /// ascending key order: the first entry with a key after the cursor.
    #[verifier::external_body]
    pub fn first_account_after(&self, cursor: Option<u64>) -> (r: Option<(u64, Vec<u8>)>)
        ensures
            r matches Some((k, v)) ==> is_next_key(partition_accounts(*self), cursor, k) && v@
                == partition_accounts(*self)[k],
            r is None ==> none_after(partition_accounts(*self), cursor),
    {
        let lower = match cursor {
            Some(c) => Bound::Excluded(c),
            None => Bound::Unbounded,
        };
        self.accounts.range((lower, Bound::Unbounded)).next()
    }

    /// The schema label in the metadata partition: `None` when none was ever written,
    /// an error when the bytes there are not a known label.
    pub fn schema_label(&self) -> (r: Result<Option<SchemaLabel>, PartitionsError>)
        ensures
            r matches Ok(l) ==> spec_label_in(cell_value(partition_cells(*self), METADATA_MEMORY_ID))
                == Ok::<Option<SchemaLabel>, SchemaLabelError>(l),
            r matches Err(PartitionsError::CorruptLabel(e)) ==> spec_label_in(
                cell_value(partition_cells(*self), METADATA_MEMORY_ID),
            ) == Err::<Option<SchemaLabel>, SchemaLabelError>(e),
            r matches Err(e) ==> e is CorruptLabel || e is IncompatibleLayout,
    {
        let bytes = match self.read_cell(METADATA_MEMORY_ID) {
            Ok(b) => b,
            Err(_) => return Err(PartitionsError::IncompatibleLayout),
        };
        if bytes.len() == 0 {
            return Ok(None);
        }
        match SchemaLabel::try_from_bytes(bytes.as_slice()) {
            Ok(label) => Ok(Some(label)),
            Err(e) => Err(PartitionsError::CorruptLabel(e)),
        }
    }

    /// Records the schema label in the metadata partition.
    pub fn set_schema_label(&mut self, label: SchemaLabel) -> (r: Result<(), PartitionsError>)
        ensures
            r is Ok ==> partition_cells(*final(self)) == partition_cells(*old(self)).insert(
                METADATA_MEMORY_ID,
                spec_label_bytes(label),
            ),
            r is Err ==> r == Err::<(), PartitionsError>(PartitionsError::OutOfMemory)
                && partition_cells(*final(self)) == partition_cells(*old(self)),
            partition_accounts(*final(self)) == partition_accounts(*old(self)),
    {
        match self.write_cell(METADATA_MEMORY_ID, label.to_bytes()) {
            Ok(()) => Ok(()),
            Err(_) => Err(PartitionsError::OutOfMemory),
        }
    }

    /// The flat-encoded auxiliary state in the heap partition; empty when none was written.
    pub fn load_heap(&self) -> (r: Result<Vec<u8>, PartitionsError>)
        ensures
            r matches Ok(v) ==> v@ == cell_value(partition_cells(*self), HEAP_MEMORY_ID),
            r is Err ==> r == Err::<Vec<u8>, PartitionsError>(PartitionsError::IncompatibleLayout),
    {
        match self.read_cell(HEAP_MEMORY_ID) {
            Ok(v) => Ok(v),
            Err(_) => Err(PartitionsError::IncompatibleLayout),
        }
    }

    /// Writes the flat-encoded auxiliary state into the heap partition.
    pub fn save_heap(&mut self, bytes: Vec<u8>) -> (r: Result<(), PartitionsError>)
        ensures
            r is Ok ==> partition_cells(*final(self)) == partition_cells(*old(self)).insert(
                HEAP_MEMORY_ID,
                bytes@,
            ),
            r is Err ==> r == Err::<(), PartitionsError>(PartitionsError::OutOfMemory)
                && partition_cells(*final(self)) == partition_cells(*old(self)),
            partition_accounts(*final(self)) == partition_accounts(*old(self)),
    {
        match self.write_cell(HEAP_MEMORY_ID, bytes) {
            Ok(()) => Ok(()),
            Err(_) => Err(PartitionsError::OutOfMemory),
        }
    }
}

} // verus!
