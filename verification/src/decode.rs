//! The claim under verification and the trusted difficulty reference, with
//! their fixed, versionless binary schemas. The proof buffer carries, in
//! order: version (4 bytes), vin (4-byte little-endian length, then bytes),
//! vout (likewise), locktime (4 bytes), claimed tx id (32 bytes), leaf index
//! (8 bytes little-endian), headers (4-byte length, then bytes) and the
//! Merkle intermediate nodes (4-byte length, then bytes), with no trailing
//! bytes. The difficulty buffer is exactly two 32-byte big-endian values,
//! current then previous.

use vstd::prelude::*;
use crate::bytes::le_value;
use crate::bytes::read_le;
use crate::outcome::Error;

verus! {

/// The claim under verification: a transaction's serialized parts, its
/// claimed id and position, the confirming header chain and the Merkle
/// audit path.
pub struct SPVProof {
    pub version: Vec<u8>,
    pub vin: Vec<u8>,
    pub vout: Vec<u8>,
    pub locktime: Vec<u8>,
    pub tx_id: Vec<u8>,
    pub index: u64,
    pub headers: Vec<u8>,
    pub intermediate_nodes: Vec<u8>,
}

/// The two externally supplied difficulty epoch values, trusted as
/// consensus state and never derived here.
pub struct Difficulty {
    pub current: Vec<u8>,
    pub previous: Vec<u8>,
}

/// The declared vin length of a proof buffer.
pub open spec fn vin_len(b: Seq<u8>) -> int {
    le_value(b.subrange(4, 8)) as int
}

/// Where the vout length field starts.
pub open spec fn vout_pos(b: Seq<u8>) -> int {
    8 + vin_len(b)
}

/// The declared vout length of a proof buffer.
pub open spec fn vout_len(b: Seq<u8>) -> int {
    le_value(b.subrange(vout_pos(b), vout_pos(b) + 4)) as int
}

/// Where the locktime field starts; tx id, index and the headers length
/// field follow it at fixed offsets.
pub open spec fn lock_pos(b: Seq<u8>) -> int {
    vout_pos(b) + 4 + vout_len(b)
}

/// The declared headers length of a proof buffer.
pub open spec fn headers_len(b: Seq<u8>) -> int {
    le_value(b.subrange(lock_pos(b) + 44, lock_pos(b) + 48)) as int
}

/// Where the intermediate-nodes length field starts.
pub open spec fn nodes_pos(b: Seq<u8>) -> int {
    lock_pos(b) + 48 + headers_len(b)
}

/// The declared intermediate-nodes length of a proof buffer.
pub open spec fn nodes_len(b: Seq<u8>) -> int {
    le_value(b.subrange(nodes_pos(b), nodes_pos(b) + 4)) as int
}

/// The proof buffer parses to exactly the expected field set: every length
/// field in bounds, no trailing bytes, the headers field a non-empty whole
/// number of 80-byte records, the nodes field a whole number of 32-byte
/// digests.
pub open spec fn proof_buf_ok(b: Seq<u8>) -> bool {
    let n = b.len() as int;
    &&& n >= 8
    &&& vout_pos(b) + 4 <= n
    &&& lock_pos(b) + 48 <= n
    &&& nodes_pos(b) + 4 <= n
    &&& nodes_pos(b) + 4 + nodes_len(b) == n
    &&& headers_len(b) % 80 == 0
    &&& headers_len(b) >= 80
    &&& nodes_len(b) % 32 == 0
}

impl SPVProof {
    /// The field shapes every decoded proof has.
    pub open spec fn wf(self) -> bool {
        &&& self.version@.len() == 4
        &&& self.locktime@.len() == 4
        &&& self.tx_id@.len() == 32
        &&& self.headers@.len() % 80 == 0
        &&& self.headers@.len() >= 80
        &&& self.intermediate_nodes@.len() % 32 == 0
    }

    /// The decoded fields are exactly the buffer's field regions.
    pub open spec fn decodes(self, b: Seq<u8>) -> bool {
        &&& self.version@ == b.subrange(0, 4)
        &&& self.vin@ == b.subrange(8, 8 + vin_len(b))
        &&& self.vout@ == b.subrange(vout_pos(b) + 4, vout_pos(b) + 4 + vout_len(b))
        &&& self.locktime@ == b.subrange(lock_pos(b), lock_pos(b) + 4)
        &&& self.tx_id@ == b.subrange(lock_pos(b) + 4, lock_pos(b) + 36)
        &&& self.index as nat == le_value(b.subrange(lock_pos(b) + 36, lock_pos(b) + 44))
        &&& self.headers@ == b.subrange(lock_pos(b) + 48, lock_pos(b) + 48 + headers_len(b))
        &&& self.intermediate_nodes@ == b.subrange(nodes_pos(b) + 4, nodes_pos(b) + 4 + nodes_len(b))
    }
}

/// Decodes a proof buffer, rejecting any buffer that does not parse to
/// exactly the expected field set with no trailing bytes.
pub fn decode_proof(b: &[u8]) -> (r: Result<SPVProof, Error>)
    ensures
        match r {
            Ok(p) => proof_buf_ok(b@) && p.wf() && p.decodes(b@),
            Err(e) => e == Error::MalformedProofEncoding && !proof_buf_ok(b@),
        },
{
    let n: usize = b.len();
    let n64: u64 = n as u64;
    if n < 8 {
        return Err(Error::MalformedProofEncoding);
    }
    let vl: u64 = read_le(b, 4, 4);
    proof {
        crate::bytes::lemma_le_value_bound(b@.subrange(4, 8));
        crate::bytes::lemma_pow256_u32();
    }
    if 12 + vl > n64 {
        return Err(Error::MalformedProofEncoding);
    }
    let vout_at: usize = 8 + (vl as usize);
    assert(vout_at == vout_pos(b@));
    let ol: u64 = read_le(b, vout_at, 4);
    proof {
        crate::bytes::lemma_le_value_bound(b@.subrange(vout_at as int, vout_at + 4));
        crate::bytes::lemma_pow256_u32();
    }
    if 12 + vl + 48 + ol > n64 {
        return Err(Error::MalformedProofEncoding);
    }
    let lock_at: usize = vout_at + 4 + (ol as usize);
    assert(lock_at == lock_pos(b@));
    let hl: u64 = read_le(b, lock_at + 44, 4);
    proof {
        crate::bytes::lemma_le_value_bound(b@.subrange(lock_at + 44, lock_at + 48));
        crate::bytes::lemma_pow256_u32();
    }
    let rem: u64 = n64 - (lock_at as u64);
    if hl + 52 > rem {
        return Err(Error::MalformedProofEncoding);
    }
    let nodes_at: usize = lock_at + 48 + (hl as usize);
    assert(nodes_at == nodes_pos(b@));
    let ml: u64 = read_le(b, nodes_at, 4);
    if ml != n64 - (nodes_at as u64) - 4 {
        return Err(Error::MalformedProofEncoding);
    }
    if hl % 80 != 0 || hl == 0 || ml % 32 != 0 {
        return Err(Error::MalformedProofEncoding);
    }
    assert(proof_buf_ok(b@));
    let index: u64 = read_le(b, lock_at + 36, 8);
    let p = SPVProof {
        version: vstd::slice::slice_to_vec(vstd::slice::slice_subrange(b, 0, 4)),
        vin: vstd::slice::slice_to_vec(vstd::slice::slice_subrange(b, 8, vout_at)),
        vout: vstd::slice::slice_to_vec(
            vstd::slice::slice_subrange(b, vout_at + 4, lock_at),
        ),
        locktime: vstd::slice::slice_to_vec(
            vstd::slice::slice_subrange(b, lock_at, lock_at + 4),
        ),
        tx_id: vstd::slice::slice_to_vec(
            vstd::slice::slice_subrange(b, lock_at + 4, lock_at + 36),
        ),
        index,
        headers: vstd::slice::slice_to_vec(
            vstd::slice::slice_subrange(b, lock_at + 48, nodes_at),
        ),
        intermediate_nodes: vstd::slice::slice_to_vec(
            vstd::slice::slice_subrange(b, nodes_at + 4, n),
        ),
    };
    Ok(p)
}

/// Decodes the difficulty reference buffer: exactly 64 bytes, the current
/// epoch value then the previous one.
pub fn decode_difficulty(b: &[u8]) -> (r: Result<Difficulty, Error>)
    ensures
        match r {
            Ok(d) => {
                &&& b@.len() == 64
                &&& d.current@ == b@.subrange(0, 32)
                &&& d.previous@ == b@.subrange(32, 64)
            },
            Err(e) => e == Error::MalformedDifficultyEncoding && b@.len() != 64,
        },
{
    if b.len() != 64 {
        return Err(Error::MalformedDifficultyEncoding);
    }
    Ok(
        Difficulty {
            current: vstd::slice::slice_to_vec(vstd::slice::slice_subrange(b, 0, 32)),
            previous: vstd::slice::slice_to_vec(vstd::slice::slice_subrange(b, 32, 64)),
        },
    )
}

} // verus!
