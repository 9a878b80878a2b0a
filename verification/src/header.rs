//! Block header chain validation: parses a blob of consecutive 80-byte raw
//! headers, checks the hash linkage between adjacent headers, derives each
//! header's proof-of-work target from its compact difficulty field and
//! accumulates the chain's total work, the sum over all headers of
//! (maximum target / header target).

use vstd::prelude::*;
use crate::bignum::be_value;
use crate::bignum::big_add;
use crate::bignum::big_div;
use crate::bignum::lemma_be_value_push;
use crate::bytes::bytes_eq;
use crate::bytes::lemma_pow256_pos;
use crate::bytes::pow256;
use crate::hashes::hash256;
use crate::hashes::hash256_of;
use crate::outcome::Error;

verus! {

/// The `i`-th 80-byte header record of a header blob.
pub open spec fn header_at(s: Seq<u8>, i: int) -> Seq<u8> {
    s.subrange(80 * i, 80 * i + 80)
}

/// How many whole 80-byte records the blob holds.
pub open spec fn header_count(s: Seq<u8>) -> int {
    s.len() as int / 80
}

/// The previous-block-hash field of one raw header.
pub open spec fn prev_field(h: Seq<u8>) -> Seq<u8> {
    h.subrange(4, 36)
}

/// The Merkle-root field of one raw header.
pub open spec fn root_field(h: Seq<u8>) -> Seq<u8> {
    h.subrange(36, 68)
}

/// The three mantissa bytes of a compact difficulty encoding, stored
/// little-endian, as one number.
pub open spec fn mantissa_value(m0: u8, m1: u8, m2: u8) -> nat {
    (m0 + 256 * m1 + 65536 * m2) as nat
}

/// The numeric target of a compact difficulty encoding: mantissa scaled by
/// 256 to the exponent less three (exponents below three scale by one).
pub open spec fn compact_target(m0: u8, m1: u8, m2: u8, e: u8) -> nat {
    mantissa_value(m0, m1, m2) * pow256(
        if e >= 3 {
            (e - 3) as nat
        } else {
            0
        },
    )
}

/// The proof-of-work target of one raw header, decoded from bytes 72..76.
pub open spec fn target_of(h: Seq<u8>) -> nat {
    compact_target(h[72], h[73], h[74], h[75])
}

/// The largest possible target, the difficulty-one target: 0xffff followed
/// by 26 zero bytes.
pub open spec fn max_target() -> nat {
    0xffff * pow256(26)
}

/// The difficulty (work value) of one raw header: the ratio of the maximum
/// target to the header's target, in whole work units.
pub open spec fn difficulty_of(h: Seq<u8>) -> nat {
    max_target() / target_of(h)
}

/// The blob is a whole, non-empty sequence of 80-byte records, each with a
/// nonzero target (a zero target has no defined work value).
pub open spec fn chain_structure_ok(s: Seq<u8>) -> bool {
    &&& s.len() % 80 == 0
    &&& s.len() >= 80
    &&& forall|i: int| 0 <= i < header_count(s) ==> target_of(header_at(s, i)) > 0
}

/// Header `i`'s previous-hash field records the hash of header `i - 1`.
pub open spec fn linked_at(s: Seq<u8>, i: int) -> bool {
    prev_field(header_at(s, i)) == hash256_of(header_at(s, i - 1))
}

/// Every adjacent pair of headers is hash-linked.
pub open spec fn chain_linked(s: Seq<u8>) -> bool {
    forall|i: int| 1 <= i < header_count(s) ==> linked_at(s, i)
}

/// The accumulated work of the first `n` headers.
pub open spec fn work_up_to(s: Seq<u8>, n: int) -> nat
    decreases n,
{
    if n <= 0 {
        0
    } else {
        work_up_to(s, n - 1) + difficulty_of(header_at(s, n - 1))
    }
}

/// The accumulated work of the whole chain.
pub open spec fn total_work(s: Seq<u8>) -> nat {
    work_up_to(s, header_count(s))
}

/// The outcome of chain validation: a structural failure, a linkage
/// failure, or success.
pub open spec fn chain_check(s: Seq<u8>) -> Result<(), Error> {
    if !chain_structure_ok(s) {
        Err(Error::MalformedProofEncoding)
    } else if !chain_linked(s) {
        Err(Error::ChainLinkageBroken)
    } else {
        Ok(())
    }
}

/// What chain validation hands downstream: the chain's accumulated work,
/// the first header's difficulty, and the last header's recorded Merkle
/// root, the first two as big-endian byte strings.
pub struct ChainSummary {
    pub accumulated_work: Vec<u8>,
    pub first_difficulty: Vec<u8>,
    pub last_merkle_root: Vec<u8>,
}

/// The difficulty-one target as a big-endian byte string.
fn max_target_bytes() -> (r: Vec<u8>)
    ensures
        be_value(r@) == max_target(),
{
    let mut v: Vec<u8> = Vec::new();
    v.push(0xff);
    v.push(0xff);
    proof {
        lemma_be_value_push(Seq::<u8>::empty().push(0xff), 0xff);
        lemma_be_value_push(Seq::<u8>::empty(), 0xff);
        assert(be_value(v@) == 0xffff);
    }
    let mut j: usize = 0;
    while j < 26
        invariant
            j <= 26,
            be_value(v@) == 0xffff * pow256(j as nat),
        decreases 26 - j,
    {
        let ghost prev = v@;
        v.push(0);
        proof {
            lemma_be_value_push(prev, 0);
            assert((0xffff * pow256(j as nat)) * 256 == 0xffff * pow256((j + 1) as nat))
                by (nonlinear_arith)
                requires
                    pow256((j + 1) as nat) == 256 * pow256(j as nat),
            ;
        }
        j = j + 1;
    }
    v
}

/// The target of one raw header as a big-endian byte string: the three
/// mantissa bytes, most significant first, followed by exponent-minus-three
/// zero bytes.
fn target_bytes(h: &[u8]) -> (r: Vec<u8>)
    requires
        h@.len() == 80,
    ensures
        be_value(r@) == target_of(h@),
{
    let m0 = h[72];
    let m1 = h[73];
    let m2 = h[74];
    let e = h[75];
    let mut v: Vec<u8> = Vec::new();
    v.push(m2);
    v.push(m1);
    v.push(m0);
    proof {
        lemma_be_value_push(Seq::<u8>::empty().push(m2).push(m1), m0);
        lemma_be_value_push(Seq::<u8>::empty().push(m2), m1);
        lemma_be_value_push(Seq::<u8>::empty(), m2);
        assert(be_value(v@) == mantissa_value(m0, m1, m2));
    }
    if e >= 3 {
        let zeros: usize = (e - 3) as usize;
        let mut j: usize = 0;
        while j < zeros
            invariant
                j <= zeros,
                be_value(v@) == mantissa_value(m0, m1, m2) * pow256(j as nat),
            decreases zeros - j,
        {
            let ghost prev = v@;
            v.push(0);
            proof {
                lemma_be_value_push(prev, 0);
                assert((mantissa_value(m0, m1, m2) * pow256(j as nat)) * 256 == mantissa_value(
                    m0,
                    m1,
                    m2,
                ) * pow256((j + 1) as nat)) by (nonlinear_arith)
                    requires
                        pow256((j + 1) as nat) == 256 * pow256(j as nat),
                ;
            }
            j = j + 1;
        }
        assert(be_value(v@) == target_of(h@));
    } else {
        proof {
            assert(pow256(0) == 1);
        }
        assert(be_value(v@) == target_of(h@));
    }
    v
}

/// Validates a blob of consecutive 80-byte headers: structure, hash
/// linkage of every adjacent pair, and work accumulation. Returns the
/// accumulated work, the first header's difficulty and the last header's
/// Merkle root, or the first failure.
pub fn validate_chain(headers: &[u8]) -> (r: Result<ChainSummary, Error>)
    ensures
        match r {
            Ok(sum) => {
                &&& chain_check(headers@) == Ok::<(), Error>(())
                &&& be_value(sum.accumulated_work@) == total_work(headers@)
                &&& be_value(sum.first_difficulty@) == difficulty_of(header_at(headers@, 0))
                &&& sum.last_merkle_root@ == root_field(
                    header_at(headers@, header_count(headers@) - 1),
                )
            },
            Err(e) => chain_check(headers@) == Err::<(), Error>(e),
        },
{
    let n_bytes: usize = headers.len();
    if n_bytes % 80 != 0 || n_bytes == 0 {
        return Err(Error::MalformedProofEncoding);
    }
    let n: usize = n_bytes / 80;
    assert(80 * n == n_bytes) by {
        vstd::arithmetic::div_mod::lemma_fundamental_div_mod(n_bytes as int, 80);
    };
    // First pass: every header must carry a nonzero target.
    let mut i: usize = 0;
    while i < n
        invariant
            n_bytes == headers@.len(),
            n_bytes % 80 == 0,
            n_bytes >= 80,
            n == header_count(headers@),
            80 * n == n_bytes,
            i <= n,
            forall|j: int| 0 <= j < i ==> target_of(header_at(headers@, j)) > 0,
        decreases n - i,
    {
        let base: usize = 80 * i;
        let m0 = headers[base + 72];
        let m1 = headers[base + 73];
        let m2 = headers[base + 74];
        proof {
            assert(header_at(headers@, i as int)[72] == headers@[base + 72]);
            assert(header_at(headers@, i as int)[73] == headers@[base + 73]);
            assert(header_at(headers@, i as int)[74] == headers@[base + 74]);
        }
        if m0 == 0 && m1 == 0 && m2 == 0 {
            proof {
                assert(mantissa_value(m0, m1, m2) == 0);
                assert(target_of(header_at(headers@, i as int)) == 0);
                assert(!chain_structure_ok(headers@));
            }
            return Err(Error::MalformedProofEncoding);
        }
        proof {
            let ghost h = header_at(headers@, i as int);
            lemma_pow256_pos(if h[75] >= 3 {
                (h[75] - 3) as nat
            } else {
                0
            });
            assert(target_of(h) > 0) by (nonlinear_arith)
                requires
                    target_of(h) == mantissa_value(h[72], h[73], h[74]) * pow256(
                        if h[75] >= 3 {
                            (h[75] - 3) as nat
                        } else {
                            0
                        },
                    ),
                    mantissa_value(h[72], h[73], h[74]) > 0,
                    pow256(
                        if h[75] >= 3 {
                            (h[75] - 3) as nat
                        } else {
                            0
                        },
                    ) >= 1,
            ;
        }
        i = i + 1;
    }
    assert(chain_structure_ok(headers@));
    // Second pass: linkage and work accumulation.
    let max_t = max_target_bytes();
    let mut work: Vec<u8> = Vec::new();
    let mut first_diff: Vec<u8> = Vec::new();
    let mut digest: Vec<u8> = Vec::new();
    let mut i: usize = 0;
    while i < n
        invariant
            n_bytes == headers@.len(),
            n == header_count(headers@),
            80 * n == n_bytes,
            i <= n,
            chain_structure_ok(headers@),
            be_value(max_t@) == max_target(),
            i >= 1 ==> digest@ == hash256_of(header_at(headers@, i - 1)),
            forall|j: int| 1 <= j < i ==> linked_at(headers@, j),
            be_value(work@) == work_up_to(headers@, i as int),
            i >= 1 ==> be_value(first_diff@) == difficulty_of(header_at(headers@, 0)),
        decreases n - i,
    {
        let base: usize = 80 * i;
        let h: &[u8] = vstd::slice::slice_subrange(headers, base, base + 80);
        assert(h@ == header_at(headers@, i as int));
        if i > 0 {
            let prev: &[u8] = vstd::slice::slice_subrange(h, 4, 36);
            if !bytes_eq(prev, digest.as_slice()) {
                proof {
                    assert(!linked_at(headers@, i as int));
                    assert(!chain_linked(headers@));
                }
                return Err(Error::ChainLinkageBroken);
            }
        }
        digest = hash256(h);
        let t = target_bytes(h);
        proof {
            assert(target_of(header_at(headers@, i as int)) > 0);
        }
        let d = big_div(&max_t, &t);
        if i == 0 {
            first_diff = big_div(&max_t, &t);
        }
        work = big_add(&work, &d);
        i = i + 1;
    }
    let last_base: usize = 80 * (n - 1);
    let root: &[u8] = vstd::slice::slice_subrange(headers, last_base + 36, last_base + 68);
    proof {
        assert(root@ =~= root_field(header_at(headers@, n - 1)));
    }
    Ok(
        ChainSummary {
            accumulated_work: work,
            first_difficulty: first_diff,
            last_merkle_root: vstd::slice::slice_to_vec(root),
        },
    )
}

/// A well-formed header pair whose second header records the hash of the
/// first validates as a chain, with accumulated work the sum of the two
/// headers' work values.
pub proof fn lemma_chain_pair(h0: Seq<u8>, h1: Seq<u8>)
    requires
        h0.len() == 80,
        h1.len() == 80,
        target_of(h0) > 0,
        target_of(h1) > 0,
        prev_field(h1) == hash256_of(h0),
    ensures
        chain_check(h0 + h1) == Ok::<(), Error>(()),
        total_work(h0 + h1) == difficulty_of(h0) + difficulty_of(h1),
{
    let s = h0 + h1;
    assert(header_at(s, 0) =~= h0);
    assert(header_at(s, 1) =~= h1);
    assert(header_count(s) == 2);
    assert forall|i: int| 0 <= i < header_count(s) implies target_of(header_at(s, i)) > 0 by {
        if i == 0 {
            assert(header_at(s, 0) =~= h0);
        } else {
            assert(header_at(s, 1) =~= h1);
        }
    }
    assert(chain_structure_ok(s));
    assert forall|i: int| 1 <= i < header_count(s) implies linked_at(s, i) by {
        assert(header_at(s, 1) =~= h1);
        assert(header_at(s, 0) =~= h0);
    }
    assert(chain_linked(s));
    assert(work_up_to(s, 0) == 0);
    assert(work_up_to(s, 1) == difficulty_of(header_at(s, 0)));
    assert(work_up_to(s, 2) == work_up_to(s, 1) + difficulty_of(header_at(s, 1)));
}

/// Altering a previous-hash field anywhere past the first header breaks
/// the whole chain: if header `i`'s previous-hash differs from the prior
/// header's hash — as any one-bit alteration makes it do — validation
/// reports the linkage failure, whatever the other headers say.
pub proof fn lemma_chain_linkage_broken(s: Seq<u8>, i: int)
    requires
        chain_structure_ok(s),
        1 <= i < header_count(s),
        prev_field(header_at(s, i)) != hash256_of(header_at(s, i - 1)),
    ensures
        chain_check(s) == Err::<(), Error>(Error::ChainLinkageBroken),
{
    assert(!linked_at(s, i));
    assert(!chain_linked(s));
}

/// Altering one byte — so in particular one bit — of any previous-hash
/// field of a structurally sound, fully linked chain makes validation of
/// the altered chain report the linkage failure.
pub proof fn lemma_altered_prev_hash_breaks_chain(s1: Seq<u8>, s2: Seq<u8>, i: int, q: int)
    requires
        chain_structure_ok(s1),
        chain_linked(s1),
        s1.len() == s2.len(),
        1 <= i < header_count(s1),
        80 * i + 4 <= q < 80 * i + 36,
        s2[q] != s1[q],
        forall|r: int| 0 <= r < s1.len() && r != q ==> s2[r] == s1[r],
    ensures
        chain_check(s2) == Err::<(), Error>(Error::ChainLinkageBroken),
{
    assert(header_count(s2) == header_count(s1));
    // The difficulty fields are untouched, so the altered chain is still
    // structurally sound.
    assert forall|j: int| 0 <= j < header_count(s2) implies target_of(header_at(s2, j)) > 0 by {
        assert(header_at(s2, j)[72] == s2[80 * j + 72]);
        assert(header_at(s2, j)[73] == s2[80 * j + 73]);
        assert(header_at(s2, j)[74] == s2[80 * j + 74]);
        assert(header_at(s2, j)[75] == s2[80 * j + 75]);
        assert(header_at(s1, j)[72] == s1[80 * j + 72]);
        assert(header_at(s1, j)[73] == s1[80 * j + 73]);
        assert(header_at(s1, j)[74] == s1[80 * j + 74]);
        assert(header_at(s1, j)[75] == s1[80 * j + 75]);
        assert(80 * j + 72 != q && 80 * j + 73 != q && 80 * j + 74 != q && 80 * j + 75 != q);
        assert(target_of(header_at(s1, j)) > 0);
    }
    assert(chain_structure_ok(s2));
    // Header i - 1 is untouched, so its hash is unchanged.
    assert(header_at(s2, i - 1) =~= header_at(s1, i - 1));
    // The altered previous-hash field differs from the original at the
    // altered byte, and the original equalled the predecessor's hash.
    let k = q - (80 * i + 4);
    assert(prev_field(header_at(s2, i))[k] == s2[q]);
    assert(prev_field(header_at(s1, i))[k] == s1[q]);
    assert(linked_at(s1, i));
    assert(prev_field(header_at(s2, i)) == hash256_of(header_at(s2, i - 1))
        ==> prev_field(header_at(s2, i))[k] == prev_field(header_at(s1, i))[k]);
    assert(!linked_at(s2, i));
    assert(!chain_linked(s2));
}

} // verus!
