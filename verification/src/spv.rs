//! The verification orchestrator: five sequential gates — vector codec,
//! transaction identity, header chain, difficulty epoch, Merkle inclusion —
//! each terminal: the first gate to fail decides the outcome, and no later
//! gate runs.

use vstd::prelude::*;
use crate::bignum::be_value;
use crate::codec::valid_vin;
use crate::codec::valid_vout;
use crate::codec::validate_vin;
use crate::codec::validate_vout;
use crate::decode::Difficulty;
use crate::decode::SPVProof;
use crate::epoch::check_epoch;
use crate::epoch::epoch_check;
use crate::epoch::epoch_matched;
use crate::epoch::required_difficulty;
use crate::epoch::WORK_CONFIRMATION_FACTOR;
use crate::header::chain_check;
use crate::header::chain_linked;
use crate::header::chain_structure_ok;
use crate::header::difficulty_of;
use crate::header::header_at;
use crate::header::header_count;
use crate::header::root_field;
use crate::header::total_work;
use crate::header::validate_chain;
use crate::merkle::digests_of;
use crate::merkle::merkle_fold;
use crate::merkle::verify_merkle;
use crate::outcome::Error;
use crate::tx::check_txid;
use crate::tx::compute_txid;
use crate::tx::txid_of;

verus! {

/// The first header's difficulty value of a proof's chain.
pub open spec fn first_difficulty(p: SPVProof) -> nat {
    difficulty_of(header_at(p.headers@, 0))
}

/// The outcome one validation call owes for a given proof and difficulty
/// reference: the first failing gate's kind, or success when every gate
/// passes.
pub open spec fn verify_outcome(p: SPVProof, d: Difficulty) -> Result<(), Error> {
    if !valid_vin(p.vin@) {
        Err(Error::InvalidVin)
    } else if !valid_vout(p.vout@) {
        Err(Error::InvalidVout)
    } else if p.tx_id@ != txid_of(p.version@, p.vin@, p.vout@, p.locktime@) {
        Err(Error::TxIdMismatch)
    } else if !chain_structure_ok(p.headers@) {
        Err(Error::MalformedProofEncoding)
    } else if !chain_linked(p.headers@) {
        Err(Error::ChainLinkageBroken)
    } else if !epoch_matched(first_difficulty(p), be_value(d.current@), be_value(d.previous@)) {
        Err(Error::UnknownDifficultyEpoch)
    } else if total_work(p.headers@) < required_difficulty(
        first_difficulty(p),
        be_value(d.current@),
        be_value(d.previous@),
    ) * (WORK_CONFIRMATION_FACTOR as nat) {
        Err(Error::InsufficientWork)
    } else if !(p.intermediate_nodes@.len() % 32 == 0 && merkle_fold(
        p.tx_id@,
        digests_of(p.intermediate_nodes@),
        p.index as nat,
    ) == root_field(header_at(p.headers@, header_count(p.headers@) - 1))) {
        Err(Error::MerkleProofInvalid)
    } else {
        Ok(())
    }
}

/// Validates one SPV claim against the difficulty reference: checks the
/// input and output vectors, the transaction id, the header chain, the
/// difficulty epoch anchoring with its work requirement, and the Merkle
/// inclusion of the transaction in the last header, stopping at the first
/// failure.
pub fn verify(proof: &SPVProof, difficulty: &Difficulty) -> (r: Result<(), Error>)
    ensures
        r == verify_outcome(*proof, *difficulty),
{
    if !validate_vin(proof.vin.as_slice()) {
        return Err(Error::InvalidVin);
    }
    if !validate_vout(proof.vout.as_slice()) {
        return Err(Error::InvalidVout);
    }
    let tx_id = compute_txid(
        proof.version.as_slice(),
        proof.vin.as_slice(),
        proof.vout.as_slice(),
        proof.locktime.as_slice(),
    );
    match check_txid(&tx_id, &proof.tx_id) {
        Ok(_) => {},
        Err(e) => {
            return Err(e);
        },
    }
    let summary = match validate_chain(proof.headers.as_slice()) {
        Ok(s) => s,
        Err(e) => {
            return Err(e);
        },
    };
    match check_epoch(
        &summary.first_difficulty,
        &difficulty.current,
        &difficulty.previous,
        &summary.accumulated_work,
    ) {
        Ok(_) => {},
        Err(e) => {
            return Err(e);
        },
    }
    if !verify_merkle(
        tx_id.as_slice(),
        summary.last_merkle_root.as_slice(),
        proof.intermediate_nodes.as_slice(),
        proof.index,
    ) {
        return Err(Error::MerkleProofInvalid);
    }
    Ok(())
}

/// Short-circuit ordering: when every gate up to the epoch stage passes
/// but the accumulated work falls short, the outcome is the
/// insufficient-work kind, whatever the Merkle data says — the Merkle gate
/// is never reached.
pub proof fn lemma_epoch_gate_short_circuits(p: SPVProof, d: Difficulty)
    requires
        valid_vin(p.vin@),
        valid_vout(p.vout@),
        p.tx_id@ == txid_of(p.version@, p.vin@, p.vout@, p.locktime@),
        chain_structure_ok(p.headers@),
        chain_linked(p.headers@),
        epoch_matched(first_difficulty(p), be_value(d.current@), be_value(d.previous@)),
        total_work(p.headers@) < required_difficulty(
            first_difficulty(p),
            be_value(d.current@),
            be_value(d.previous@),
        ) * (WORK_CONFIRMATION_FACTOR as nat),
    ensures
        verify_outcome(p, d) == Err::<(), Error>(Error::InsufficientWork),
{
}

/// The epoch and work gates of the whole pipeline agree with the epoch
/// stage's own outcome: once the codec, identity and chain gates pass, the
/// pipeline's verdict up to the Merkle gate is the epoch stage's verdict.
pub proof fn lemma_epoch_stage_agrees(p: SPVProof, d: Difficulty)
    requires
        valid_vin(p.vin@),
        valid_vout(p.vout@),
        p.tx_id@ == txid_of(p.version@, p.vin@, p.vout@, p.locktime@),
        chain_check(p.headers@) == Ok::<(), Error>(()),
        epoch_check(
            first_difficulty(p),
            be_value(d.current@),
            be_value(d.previous@),
            total_work(p.headers@),
        ) is Err,
    ensures
        verify_outcome(p, d) == epoch_check(
            first_difficulty(p),
            be_value(d.current@),
            be_value(d.previous@),
            total_work(p.headers@),
        ),
{
}

} // verus!
