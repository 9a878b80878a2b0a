//! Difficulty epoch checking: the chain's first header must sit at one of
//! the two externally supplied difficulty epochs (current or previous), and
//! the chain's accumulated work must reach the matched difficulty times the
//! confirmation factor.

use vstd::prelude::*;
use crate::bignum::be_value;
use crate::bignum::big_eq;
use crate::bignum::big_ge;
use crate::bignum::big_mul_u64;
use crate::outcome::Error;

verus! {

/// The proof-of-work confirmation factor: how many single-header work
/// units the chain must carry beyond its anchor.
pub const WORK_CONFIRMATION_FACTOR: u64 = 6;

/// The first header's difficulty equals one of the two known epochs.
pub open spec fn epoch_matched(first: nat, current: nat, previous: nat) -> bool {
    first == current || first == previous
}

/// The matched epoch's difficulty, the baseline for the work requirement;
/// the current epoch is preferred when both match.
pub open spec fn required_difficulty(first: nat, current: nat, previous: nat) -> nat {
    if first == current {
        current
    } else {
        previous
    }
}

/// The outcome of the epoch stage: anchored at a known epoch, and enough
/// accumulated work over the matched baseline.
pub open spec fn epoch_check(first: nat, current: nat, previous: nat, observed: nat) -> Result<
    (),
    Error,
> {
    if !epoch_matched(first, current, previous) {
        Err(Error::UnknownDifficultyEpoch)
    } else if observed < required_difficulty(first, current, previous) * (
    WORK_CONFIRMATION_FACTOR as nat) {
        Err(Error::InsufficientWork)
    } else {
        Ok(())
    }
}

/// Checks the epoch anchoring and the work requirement; all four inputs
/// are big-endian byte strings compared by numeric value.
pub fn check_epoch(first: &Vec<u8>, current: &Vec<u8>, previous: &Vec<u8>, observed: &Vec<u8>) -> (r:
    Result<(), Error>)
    ensures
        r == epoch_check(be_value(first@), be_value(current@), be_value(previous@), be_value(observed@)),
{
    let required: &Vec<u8> = if big_eq(first, current) {
        current
    } else if big_eq(first, previous) {
        previous
    } else {
        return Err(Error::UnknownDifficultyEpoch);
    };
    let needed = big_mul_u64(required, WORK_CONFIRMATION_FACTOR);
    if big_ge(observed, &needed) {
        Ok(())
    } else {
        Err(Error::InsufficientWork)
    }
}

/// Epoch anchoring: with distinct current and previous epoch values, a
/// first-header difficulty equal to the current value passes the anchor
/// gate, equal to the previous value passes it, and a third value fails
/// with the unknown-epoch kind whatever the accumulated work.
pub proof fn lemma_epoch_anchoring(c: nat, p: nat, d: nat, w: nat)
    requires
        c != p,
        d != c,
        d != p,
    ensures
        w >= c * (WORK_CONFIRMATION_FACTOR as nat) ==> epoch_check(c, c, p, w) == Ok::<(), Error>(()),
        w >= p * (WORK_CONFIRMATION_FACTOR as nat) ==> epoch_check(p, c, p, w) == Ok::<(), Error>(()),
        epoch_check(d, c, p, w) == Err::<(), Error>(Error::UnknownDifficultyEpoch),
{
}

/// Work-sufficiency boundary: accumulated work exactly equal to the
/// required multiple passes, and one unit below it fails with the
/// insufficient-work kind.
pub proof fn lemma_work_boundary(first: nat, c: nat, p: nat)
    requires
        epoch_matched(first, c, p),
    ensures
        epoch_check(first, c, p, required_difficulty(first, c, p) * (WORK_CONFIRMATION_FACTOR as nat))
            == Ok::<(), Error>(()),
        required_difficulty(first, c, p) >= 1 ==> epoch_check(
            first,
            c,
            p,
            (required_difficulty(first, c, p) * (WORK_CONFIRMATION_FACTOR as nat) - 1) as nat,
        ) == Err::<(), Error>(Error::InsufficientWork),
{
}

} // verus!
