//! Merkle inclusion proof verification: replay an audit path of sibling
//! digests against a leaf index, combining with double SHA-256 at each
//! level, and compare the reconstructed root with the header's recorded
//! root. The bit of the index at each level, least significant first,
//! decides whether the running digest is hashed before or after the sibling.

use vstd::prelude::*;
use vstd::arithmetic::power2::pow2;
use crate::bytes::bytes_eq;
use crate::bytes::push_all;
use crate::hashes::hash256;
use crate::hashes::hash256_of;

verus! {

/// One combining step: the running digest and the sibling, ordered by the
/// low bit of the index, concatenated and double-SHA-256 hashed.
pub open spec fn merkle_step(cur: Seq<u8>, node: Seq<u8>, idx: nat) -> Seq<u8> {
    if idx % 2 == 0 {
        hash256_of(cur + node)
    } else {
        hash256_of(node + cur)
    }
}

/// Replays the whole audit path from a leaf digest, consuming one index bit
/// per level.
pub open spec fn merkle_fold(cur: Seq<u8>, nodes: Seq<Seq<u8>>, idx: nat) -> Seq<u8>
    decreases nodes.len(),
{
    if nodes.len() == 0 {
        cur
    } else {
        merkle_fold(merkle_step(cur, nodes.first(), idx), nodes.drop_first(), idx / 2)
    }
}

/// The 32-byte digests packed back to back in a blob.
pub open spec fn digests_of(blob: Seq<u8>) -> Seq<Seq<u8>> {
    Seq::new((blob.len() / 32) as nat, |i: int| blob.subrange(32 * i, 32 * i + 32))
}

/// Checks a Merkle inclusion proof: the intermediate nodes are packed
/// 32-byte digests; the reconstruction from the leaf must equal `root`.
pub fn verify_merkle(leaf: &[u8], root: &[u8], nodes: &[u8], index: u64) -> (r: bool)
    ensures
        r == (nodes@.len() % 32 == 0 && merkle_fold(leaf@, digests_of(nodes@), index as nat)
            == root@),
{
    let n_bytes: usize = nodes.len();
    if n_bytes % 32 != 0 {
        return false;
    }
    let k: usize = n_bytes / 32;
    assert(32 * k == n_bytes) by {
        vstd::arithmetic::div_mod::lemma_fundamental_div_mod(n_bytes as int, 32);
    };
    let mut cur: Vec<u8> = vstd::slice::slice_to_vec(leaf);
    let mut idx: u64 = index;
    let mut i: usize = 0;
    proof {
        assert(digests_of(nodes@).skip(0) =~= digests_of(nodes@));
    }
    while i < k
        invariant
            n_bytes == nodes@.len(),
            32 * k == n_bytes,
            k == digests_of(nodes@).len(),
            i <= k,
            merkle_fold(leaf@, digests_of(nodes@), index as nat) == merkle_fold(
                cur@,
                digests_of(nodes@).skip(i as int),
                idx as nat,
            ),
        decreases k - i,
    {
        let node: &[u8] = vstd::slice::slice_subrange(nodes, 32 * i, 32 * i + 32);
        let ghost rest = digests_of(nodes@).skip(i as int);
        proof {
            assert(rest.first() == digests_of(nodes@)[i as int]);
            assert(rest.first() == node@);
            assert(rest.drop_first() =~= digests_of(nodes@).skip(i + 1));
        }
        let mut buf: Vec<u8> = Vec::new();
        if idx % 2 == 0 {
            push_all(&mut buf, cur.as_slice());
            push_all(&mut buf, node);
            proof {
                assert(buf@ =~= cur@ + node@);
            }
        } else {
            push_all(&mut buf, node);
            push_all(&mut buf, cur.as_slice());
            proof {
                assert(buf@ =~= node@ + cur@);
            }
        }
        let ghost prev_cur = cur@;
        cur = hash256(buf.as_slice());
        proof {
            assert(cur@ == merkle_step(prev_cur, rest.first(), idx as nat));
            assert((idx / 2) as nat == (idx as nat) / 2);
        }
        idx = idx / 2;
        i = i + 1;
    }
    proof {
        assert(digests_of(nodes@).skip(k as int) =~= Seq::<Seq<u8>>::empty());
    }
    bytes_eq(cur.as_slice(), root)
}

/// One level up a synthetic complete tree: adjacent leaves pairwise
/// combined, left sibling first.
pub open spec fn pair_up(leaves: Seq<Seq<u8>>) -> Seq<Seq<u8>> {
    Seq::new((leaves.len() / 2) as nat, |i: int| hash256_of(leaves[2 * i] + leaves[2 * i + 1]))
}

/// The root of a synthetic complete tree built over the leaves.
pub open spec fn merkle_root_of(leaves: Seq<Seq<u8>>) -> Seq<u8>
    decreases leaves.len(),
{
    if leaves.len() <= 1 {
        if leaves.len() == 1 {
            leaves[0]
        } else {
            Seq::empty()
        }
    } else {
        merkle_root_of(pair_up(leaves))
    }
}

/// The audit path for leaf `j` of a synthetic complete tree: the sibling at
/// each level, leaf level first.
pub open spec fn audit_path(leaves: Seq<Seq<u8>>, j: int) -> Seq<Seq<u8>>
    decreases leaves.len(),
{
    if leaves.len() <= 1 {
        Seq::empty()
    } else {
        seq![
            if j % 2 == 0 {
                leaves[j + 1]
            } else {
                leaves[j - 1]
            },
        ] + audit_path(pair_up(leaves), j / 2)
    }
}

/// Round trip: over a complete tree of two-to-the-`k` leaves, replaying the
/// audit path generated for leaf `j`, with index `j`, always reconstructs
/// the tree's root.
pub proof fn lemma_merkle_round_trip(leaves: Seq<Seq<u8>>, j: int, k: nat)
    requires
        leaves.len() == pow2(k),
        0 <= j < leaves.len(),
    ensures
        merkle_fold(leaves[j], audit_path(leaves, j), j as nat) == merkle_root_of(leaves),
    decreases k,
{
    if k == 0 {
        assert(pow2(0) == 1) by {
            vstd::arithmetic::power2::lemma2_to64();
        };
        assert(audit_path(leaves, j) =~= Seq::<Seq<u8>>::empty());
    } else {
        assert(pow2(k) == 2 * pow2((k - 1) as nat)) by {
            vstd::arithmetic::power2::lemma_pow2_unfold(k);
        };
        let next = pair_up(leaves);
        assert(next.len() == pow2((k - 1) as nat));
        let sib = if j % 2 == 0 {
            leaves[j + 1]
        } else {
            leaves[j - 1]
        };
        let path = audit_path(leaves, j);
        assert(path.first() == sib);
        assert(path.drop_first() =~= audit_path(next, j / 2));
        assert(merkle_step(leaves[j], sib, j as nat) == next[j / 2]) by {
            if j % 2 == 0 {
                assert(2 * (j / 2) == j);
            } else {
                assert(2 * (j / 2) == j - 1);
            }
            assert((j as nat) % 2 == (j % 2) as nat);
        };
        assert((j as nat) / 2 == (j / 2) as nat);
        lemma_merkle_round_trip(next, j / 2, (k - 1) as nat);
    }
}

} // verus!
