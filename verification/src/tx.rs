//! Transaction identity: the canonical serialization of a transaction is
//! the concatenation of version, input vector, output vector and locktime,
//! exactly as supplied; its double SHA-256 digest is the transaction id.

use vstd::prelude::*;
use crate::bytes::push_all;
use crate::hashes::hash256;
use crate::hashes::hash256_of;
use crate::outcome::Error;

verus! {

/// The transaction id of the four serialized parts.
pub open spec fn txid_of(version: Seq<u8>, vin: Seq<u8>, vout: Seq<u8>, locktime: Seq<u8>) -> Seq<
    u8,
> {
    hash256_of(version + vin + vout + locktime)
}

/// Computes the transaction id from the four serialized parts, without any
/// re-encoding.
pub fn compute_txid(version: &[u8], vin: &[u8], vout: &[u8], locktime: &[u8]) -> (r: Vec<u8>)
    ensures
        r@ == txid_of(version@, vin@, vout@, locktime@),
        r@.len() == 32,
{
    let mut buf: Vec<u8> = Vec::new();
    push_all(&mut buf, version);
    push_all(&mut buf, vin);
    push_all(&mut buf, vout);
    push_all(&mut buf, locktime);
    proof {
        assert(buf@ =~= version@ + vin@ + vout@ + locktime@);
    }
    hash256(buf.as_slice())
}

/// Transaction-id calculation is deterministic: two computations over
/// identical serialized parts yield the identical identifier.
pub proof fn lemma_txid_deterministic(
    v1: Seq<u8>,
    vin1: Seq<u8>,
    vout1: Seq<u8>,
    l1: Seq<u8>,
    v2: Seq<u8>,
    vin2: Seq<u8>,
    vout2: Seq<u8>,
    l2: Seq<u8>,
)
    requires
        v1 == v2,
        vin1 == vin2,
        vout1 == vout2,
        l1 == l2,
    ensures
        txid_of(v1, vin1, vout1, l1) == txid_of(v2, vin2, vout2, l2),
{
}

/// Checks the computed transaction id against the claimed one; a mismatch
/// is the hard tx-id failure, never a warning.
pub fn check_txid(computed: &Vec<u8>, claimed: &Vec<u8>) -> (r: Result<(), Error>)
    ensures
        r == if claimed@ == computed@ {
            Ok::<(), Error>(())
        } else {
            Err::<(), Error>(Error::TxIdMismatch)
        },
{
    if crate::bytes::bytes_eq(claimed.as_slice(), computed.as_slice()) {
        Ok(())
    } else {
        Err(Error::TxIdMismatch)
    }
}

} // verus!
