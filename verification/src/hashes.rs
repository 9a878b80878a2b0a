//! Double SHA-256, the digest Bitcoin uses for block hashes, transaction
//! ids and Merkle tree nodes, done by the `bitcoin_spv` crate behind a
//! trusted wrapper. The digest itself is left uninterpreted: the contracts
//! only say that it is a function of the input bytes.

use vstd::prelude::*;

verus! {

/// The double SHA-256 digest of a byte string: a function of the bytes
/// alone, never written out here.
pub uninterp spec fn hash256_of(b: Seq<u8>) -> Seq<u8>;

/// Relies on `bitcoin_spv::btcspv::hash256`: SHA-256 applied twice to the
/// concatenation of the preimages; the result depends on the input bytes
/// alone and is 32 bytes long.
#[verifier::external_body]
pub fn hash256(data: &[u8]) -> (r: Vec<u8>)
    ensures
        r@ == hash256_of(data@),
        r@.len() == 32,
{
    bitcoin_spv::btcspv::hash256(&[data]).as_ref().to_vec()
}

} // verus!
