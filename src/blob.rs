//! The legacy upgrade blob: the encoded dataset and the encoded auxiliary state, as one
//! Candid-encoded pair of byte strings.
use vstd::prelude::*;

verus! {

#[verifier::external_type_specification]
#[verifier::external_body]
pub struct ExCandidError(candid::Error);

/// The bytes that Candid encodes a pair of byte strings as.
pub uninterp spec fn candid_pair_bytes(first: Seq<u8>, second: Seq<u8>) -> Seq<u8>;

/// The pair of byte strings that Candid decodes the bytes as, if it decodes them.
pub uninterp spec fn candid_pair_of(bytes: Seq<u8>) -> Option<(Seq<u8>, Seq<u8>)>;

/// Relies on `candid::encode_args`: the Candid encoding of the pair, which
/// `candid::decode_args` reads back as the same pair. Serializing two byte strings only
/// writes into a vector, so it does not fail.
#[verifier::external_body]
pub(crate) fn encode_pair(first: &Vec<u8>, second: &Vec<u8>) -> (r: Result<Vec<u8>, candid::Error>)
    ensures
        r is Ok,
        r matches Ok(v) ==> v@ == candid_pair_bytes(first@, second@),
        r matches Ok(v) ==> candid_pair_of(v@) == Some((first@, second@)),
{
    candid::encode_args((first, second))
}

/// Relies on `candid::decode_args`: the pair of byte strings that the bytes encode.
#[verifier::external_body]
pub(crate) fn decode_pair(bytes: &[u8]) -> (r: Result<(Vec<u8>, Vec<u8>), candid::Error>)
    ensures
        r matches Ok((a, b)) ==> candid_pair_of(bytes@) == Some((a@, b@)),
        r is Err ==> candid_pair_of(bytes@) is None,
{
    candid::decode_args::<(Vec<u8>, Vec<u8>)>(bytes)
}

} // verus!
