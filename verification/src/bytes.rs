//! Byte-string helpers shared by the codec and the validators: little-endian
//! integer values, powers of 256, byte-wise equality and concatenation.

use vstd::prelude::*;

verus! {

/// 256 raised to the power `n`.
pub open spec fn pow256(n: nat) -> nat
    decreases n,
{
    if n == 0 {
        1
    } else {
        256 * pow256((n - 1) as nat)
    }
}

pub proof fn lemma_pow256_pos(n: nat)
    ensures
        pow256(n) >= 1,
    decreases n,
{
    if n > 0 {
        lemma_pow256_pos((n - 1) as nat);
    }
}

pub proof fn lemma_pow256_mono(a: nat, b: nat)
    requires
        a <= b,
    ensures
        pow256(a) <= pow256(b),
    decreases b,
{
    if a < b && b > 0 {
        lemma_pow256_mono(a, (b - 1) as nat);
        lemma_pow256_pos((b - 1) as nat);
    }
}

pub proof fn lemma_pow256_u32()
    ensures
        pow256(4) == 0x100000000,
{
    reveal_with_fuel(pow256, 5);
}

pub proof fn lemma_pow256_u64()
    ensures
        pow256(8) == 0x10000000000000000,
{
    reveal_with_fuel(pow256, 9);
}

/// The unsigned integer value of a little-endian byte string.
pub open spec fn le_value(s: Seq<u8>) -> nat
    decreases s.len(),
{
    if s.len() == 0 {
        0
    } else {
        (s.first() + 256 * le_value(s.drop_first())) as nat
    }
}

pub proof fn lemma_le_value_bound(s: Seq<u8>)
    ensures
        le_value(s) < pow256(s.len()),
    decreases s.len(),
{
    if s.len() > 0 {
        lemma_le_value_bound(s.drop_first());
    }
}

/// Reads `len` bytes starting at `pos` as a little-endian unsigned integer.
pub fn read_le(s: &[u8], pos: usize, len: usize) -> (r: u64)
    requires
        pos + len <= s@.len(),
        len <= 8,
    ensures
        r as nat == le_value(s@.subrange(pos as int, pos + len)),
{
    let n: usize = s.len();
    let mut j: usize = len;
    let mut acc: u64 = 0;
    proof {
        assert(s@.subrange(pos + len, pos + len) =~= Seq::<u8>::empty());
    }
    while j > 0
        invariant
            n == s@.len(),
            pos + len <= s@.len(),
            len <= 8,
            j <= len,
            acc as nat == le_value(s@.subrange(pos + j, pos + len)),
            (acc as nat) < pow256((len - j) as nat),
        decreases j,
    {
        j = j - 1;
        let b = *vstd::slice::slice_index_get(s, pos + j);
        proof {
            lemma_pow256_mono((len - j) as nat, 8);
            lemma_pow256_u64();
            assert(s@.subrange(pos + j, pos + len).drop_first()
                =~= s@.subrange(pos + j + 1, pos + len));
            assert(s@.subrange(pos + j, pos + len).first() == s@[pos + j]);
        }
        acc = acc * 256 + (b as u64);
    }
    acc
}

/// Byte-wise equality of two byte strings.
pub fn bytes_eq(a: &[u8], b: &[u8]) -> (r: bool)
    ensures
        r == (a@ == b@),
{
    if a.len() != b.len() {
        return false;
    }
    let mut i: usize = 0;
    while i < a.len()
        invariant
            i <= a@.len(),
            a@.len() == b@.len(),
            forall|j: int| 0 <= j < i ==> a@[j] == b@[j],
        decreases a@.len() - i,
    {
        if a[i] != b[i] {
            assert(a@ == b@ ==> a@[i as int] == b@[i as int]);
            return false;
        }
        i = i + 1;
    }
    proof {
        assert(a@ =~= b@);
    }
    true
}

/// Appends every byte of `src` to `dst`.
pub fn push_all(dst: &mut Vec<u8>, src: &[u8])
    ensures
        final(dst)@ == old(dst)@ + src@,
{
    let mut i: usize = 0;
    proof {
        assert(dst@ =~= dst@ + src@.subrange(0, 0));
    }
    while i < src.len()
        invariant
            i <= src@.len(),
            dst@ == old(dst)@ + src@.subrange(0, i as int),
        decreases src@.len() - i,
    {
        dst.push(src[i]);
        proof {
            assert(old(dst)@ + src@.subrange(0, i + 1)
                =~= (old(dst)@ + src@.subrange(0, i as int)).push(src@[i as int]));
        }
        i = i + 1;
    }
    proof {
        assert(src@.subrange(0, src@.len() as int) =~= src@);
    }
}

} // verus!
