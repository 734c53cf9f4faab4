//! Storage layouts and the fixed-width label that records which one is in use.
use vstd::prelude::*;

verus! {

/// A storage layout of the dataset.
#[derive(Clone, Copy, Debug, PartialEq, Eq, Structural)]
pub enum SchemaLabel {
    /// The dataset is an in-memory ordered map, serialized wholesale on upgrade.
    HeapMap,
    /// The dataset lives in a map in its own memory partition.
    AccountsInStableMemory,
}

/// Why bytes could not be read as a schema label.
#[derive(Clone, Copy, Debug, PartialEq, Eq, Structural)]
pub enum SchemaLabelError {
    /// The label does not have the fixed width.
    InvalidLength { length: usize },
    /// The header does not mark the bytes as a label.
    InvalidChecksum,
    /// The header is right, but the schema is not one that this code knows.
    UnknownSchema { id: u32 },
}

/// Number of bytes of an encoded label.
pub const SCHEMA_LABEL_BYTES: usize = 8;

/// The four bytes that open every encoded label.
pub open spec fn label_header() -> Seq<u8> {
    seq![0x4cu8, 0x42u8, 0x4cu8, 0x01u8]
}

/// The number by which a schema is reported and persisted.
pub open spec fn spec_label_id(label: SchemaLabel) -> u32 {
    match label {
        SchemaLabel::HeapMap => 0,
        SchemaLabel::AccountsInStableMemory => 1,
    }
}

/// The schema with a given number, if there is one.
pub open spec fn spec_label_of_id(id: u32) -> Option<SchemaLabel> {
    if id == 0 {
        Some(SchemaLabel::HeapMap)
    } else if id == 1 {
        Some(SchemaLabel::AccountsInStableMemory)
    } else {
        None
    }
}

/// The fixed-width encoding of a label: the header, then the number in little-endian order.
pub open spec fn spec_label_bytes(label: SchemaLabel) -> Seq<u8> {
    label_header() + seq![spec_label_id(label) as u8, 0u8, 0u8, 0u8]
}

/// The number held in bytes 4..8 of a label, read little-endian.
pub open spec fn spec_id_in_bytes(b: Seq<u8>) -> u32
    recommends
        b.len() == 8,
{
    (b[4] as int + 256 * b[5] as int + 65536 * b[6] as int + 16777216 * b[7] as int) as u32
}

/// What decoding makes of some bytes.
pub open spec fn spec_decode_label(b: Seq<u8>) -> Result<SchemaLabel, SchemaLabelError> {
    if b.len() != 8 {
        Err(SchemaLabelError::InvalidLength { length: b.len() as usize })
    } else if b.subrange(0, 4) != label_header() {
        Err(SchemaLabelError::InvalidChecksum)
    } else {
        match spec_label_of_id(spec_id_in_bytes(b)) {
            Some(label) => Ok(label),
            None => Err(SchemaLabelError::UnknownSchema { id: spec_id_in_bytes(b) }),
        }
    }
}

impl SchemaLabel {
    /// The number by which this schema is reported.
    pub fn id(self) -> (r: u32)
        ensures
            r == spec_label_id(self),
    {
        match self {
            SchemaLabel::HeapMap => 0,
            SchemaLabel::AccountsInStableMemory => 1,
        }
    }

    /// The schema with the given number.
    pub fn try_from_id(id: u32) -> (r: Option<SchemaLabel>)
        ensures
            r == spec_label_of_id(id),
    {
        if id == 0 {
            Some(SchemaLabel::HeapMap)
        } else if id == 1 {
            Some(SchemaLabel::AccountsInStableMemory)
        } else {
            None
        }
    }

    /// The fixed-width encoding of this label.
    pub fn to_bytes(self) -> (r: Vec<u8>)
        ensures
            r@ == spec_label_bytes(self),
            r@.len() == SCHEMA_LABEL_BYTES,
    {
        let r: Vec<u8> = vec![0x4cu8, 0x42u8, 0x4cu8, 0x01u8, self.id() as u8, 0u8, 0u8, 0u8];
        assert(r@ =~= spec_label_bytes(self));
        r
    }

    /// Reads a label; bytes that are not exactly the encoding of a known schema are refused.
    pub fn try_from_bytes(b: &[u8]) -> (r: Result<SchemaLabel, SchemaLabelError>)
        ensures
            r == spec_decode_label(b@),
    {
        if b.len() != SCHEMA_LABEL_BYTES {
            return Err(SchemaLabelError::InvalidLength { length: b.len() });
        }
        if b[0] != 0x4cu8 || b[1] != 0x42u8 || b[2] != 0x4cu8 || b[3] != 0x01u8 {
            assert(b@.subrange(0, 4) != label_header()) by {
                if b@.subrange(0, 4) == label_header() {
                    assert(b@.subrange(0, 4)[0] == b@[0]);
                    assert(b@.subrange(0, 4)[1] == b@[1]);
                    assert(b@.subrange(0, 4)[2] == b@[2]);
                    assert(b@.subrange(0, 4)[3] == b@[3]);
                }
            }
            return Err(SchemaLabelError::InvalidChecksum);
        }
        assert(b@.subrange(0, 4) =~= label_header());
        let id: u32 = (b[4] as u32) + 256 * (b[5] as u32) + 65536 * (b[6] as u32) + 16777216 * (
        b[7] as u32);
        assert(id == spec_id_in_bytes(b@));
        match SchemaLabel::try_from_id(id) {
            Some(label) => Ok(label),
            None => Err(SchemaLabelError::UnknownSchema { id }),
        }
    }
}

/// Reading back the encoding of a label gives that label.
pub proof fn lemma_label_round_trip(label: SchemaLabel)
    ensures
        spec_decode_label(spec_label_bytes(label)) == Ok::<SchemaLabel, SchemaLabelError>(label),
{
    let b = spec_label_bytes(label);
    assert(b.subrange(0, 4) =~= label_header());
    assert(spec_id_in_bytes(b) == spec_label_id(label));
}

/// A label read from bytes is encoded as exactly those bytes: no two byte strings give
/// the same label.
pub proof fn lemma_decoded_label_is_exact(b: Seq<u8>)
    ensures
        spec_decode_label(b) matches Ok(label) ==> spec_label_bytes(label) == b,
{
    if let Ok(label) = spec_decode_label(b) {
        let e = spec_label_bytes(label);
        assert(b.subrange(0, 4) == label_header());
        assert(e.len() == b.len());
        assert forall|i: int| 0 <= i < 8 implies e[i] == b[i] by {
            if i < 4 {
                assert(b.subrange(0, 4)[i] == b[i]);
            }
        }
        assert(e =~= b);
    }
}

} // verus!
