//! The failure taxonomy of one validation call. Every failure is fatal to
//! the call; the first stage to fail decides the kind.

use vstd::prelude::*;

verus! {

/// The specific reason a validation call failed. Flat taxonomy, one kind per
/// failing stage; no kind is ever downgraded to a warning.
#[derive(Clone, Copy, Debug, PartialEq, Eq, Structural)]
pub enum Error {
    /// The proof buffer, or the header chain inside it, fails structural decode.
    MalformedProofEncoding,
    /// The difficulty reference buffer fails structural decode.
    MalformedDifficultyEncoding,
    /// The transaction input vector violates compact-size or vector structure.
    InvalidVin,
    /// The transaction output vector violates compact-size or vector structure.
    InvalidVout,
    /// The computed transaction id differs from the claimed one.
    TxIdMismatch,
    /// A header's previous-hash field does not match the prior header's hash.
    ChainLinkageBroken,
    /// The first header's difficulty matches neither the current nor the
    /// previous epoch value.
    UnknownDifficultyEpoch,
    /// Accumulated chain work is below the required multiple.
    InsufficientWork,
    /// The reconstructed Merkle root differs from the header's recorded root.
    MerkleProofInvalid,
}

} // verus!
