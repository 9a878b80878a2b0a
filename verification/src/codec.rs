//! Bitcoin-style length-prefixed vector codec: a compact-size count prefix
//! followed by that many variable-length elements. Validation checks that
//! every compact-size prefix uses the minimal form for its value range, that
//! the declared count of elements is present, and that no unconsumed bytes
//! remain.
//!
//! A transaction input is 36 outpoint bytes, a compact-size script length,
//! the script, and 4 sequence bytes; an output is 8 value bytes, a
//! compact-size script length, and the script. Both are instances of one
//! shape: a fixed part before the length prefix and a fixed part after the
//! script.

use vstd::prelude::*;
use crate::bytes::le_value;
use crate::bytes::read_le;

verus! {

/// How many bytes the compact-size encoding starting with `flag` occupies.
pub open spec fn compact_prefix_len(flag: u8) -> nat {
    if flag == 0xfd {
        3
    } else if flag == 0xfe {
        5
    } else if flag == 0xff {
        9
    } else {
        1
    }
}

/// A well-formed, minimally-encoded compact-size value starts the string.
pub open spec fn compact_ok(s: Seq<u8>) -> bool {
    &&& s.len() >= 1
    &&& s.len() >= compact_prefix_len(s[0])
    &&& (s[0] == 0xfd ==> le_value(s.subrange(1, 3)) >= 0xfd)
    &&& (s[0] == 0xfe ==> le_value(s.subrange(1, 5)) >= 0x10000)
    &&& (s[0] == 0xff ==> le_value(s.subrange(1, 9)) >= 0x100000000)
}

/// The value of the compact-size encoding at the head of the string.
pub open spec fn compact_value(s: Seq<u8>) -> nat {
    if s.len() == 0 {
        0
    } else if s[0] == 0xfd {
        le_value(s.subrange(1, 3))
    } else if s[0] == 0xfe {
        le_value(s.subrange(1, 5))
    } else if s[0] == 0xff {
        le_value(s.subrange(1, 9))
    } else {
        s[0] as nat
    }
}

/// The serialized length of the compact-size encoding at the head.
pub open spec fn compact_len(s: Seq<u8>) -> nat {
    if s.len() == 0 {
        1
    } else {
        compact_prefix_len(s[0])
    }
}

/// One vector element starts the string: `pre` fixed bytes, a compact-size
/// script length, the script, and `post` fixed bytes, all within bounds.
pub open spec fn element_ok(s: Seq<u8>, pre: nat, post: nat) -> bool {
    &&& s.len() > pre
    &&& compact_ok(s.skip(pre as int))
    &&& element_len(s, pre, post) <= s.len()
}

/// The total serialized length of the element at the head of the string.
pub open spec fn element_len(s: Seq<u8>, pre: nat, post: nat) -> nat {
    pre + compact_len(s.skip(pre as int)) + compact_value(s.skip(pre as int)) + post
}

/// Exactly `n` elements consume the whole string.
pub open spec fn elements_ok(s: Seq<u8>, n: nat, pre: nat, post: nat) -> bool
    decreases n,
{
    if n == 0 {
        s.len() == 0
    } else {
        &&& element_ok(s, pre, post)
        &&& elements_ok(s.skip(element_len(s, pre, post) as int), (n - 1) as nat, pre, post)
    }
}

/// A well-formed length-prefixed vector: a minimal compact-size count of at
/// least one, followed by exactly that many elements and nothing else.
pub open spec fn valid_vector(s: Seq<u8>, pre: nat, post: nat) -> bool {
    &&& compact_ok(s)
    &&& compact_value(s) >= 1
    &&& elements_ok(s.skip(compact_len(s) as int), compact_value(s), pre, post)
}

/// A structurally valid transaction input vector.
pub open spec fn valid_vin(s: Seq<u8>) -> bool {
    valid_vector(s, 36, 4)
}

/// A structurally valid transaction output vector.
pub open spec fn valid_vout(s: Seq<u8>) -> bool {
    valid_vector(s, 8, 0)
}

/// Parses the compact-size value starting at `pos`, rejecting truncated and
/// non-minimal encodings. Returns the value and its serialized length.
pub fn parse_compact(s: &[u8], pos: usize) -> (r: Option<(u64, usize)>)
    requires
        pos <= s@.len(),
    ensures
        match r {
            Some(p) => {
                &&& compact_ok(s@.skip(pos as int))
                &&& p.0 as nat == compact_value(s@.skip(pos as int))
                &&& p.1 as nat == compact_len(s@.skip(pos as int))
            },
            None => !compact_ok(s@.skip(pos as int)),
        },
{
    let n: usize = s.len();
    if pos >= n {
        return None;
    }
    let flag = *vstd::slice::slice_index_get(s, pos);
    assert(s@.skip(pos as int)[0] == s@[pos as int]);
    if flag < 0xfd {
        return Some(((flag as u64), 1));
    }
    let k: usize = if flag == 0xfd {
        2
    } else if flag == 0xfe {
        4
    } else {
        8
    };
    if n - pos < 1 + k {
        return None;
    }
    let v = read_le(s, pos + 1, k);
    proof {
        assert(s@.subrange(pos + 1, pos + 1 + k) =~= s@.skip(pos as int).subrange(1, 1 + k));
    }
    let min_value: u64 = if flag == 0xfd {
        0xfd
    } else if flag == 0xfe {
        0x10000
    } else {
        0x100000000
    };
    if v < min_value {
        return None;
    }
    Some((v, 1 + k))
}

/// Validates the length-prefixed vector structure with `pre` fixed bytes
/// before and `post` fixed bytes after each element's script.
fn validate_vector(s: &[u8], pre: usize, post: usize) -> (r: bool)
    requires
        pre + post < 0x10000,
    ensures
        r == valid_vector(s@, pre as nat, post as nat),
{
    let n: usize = s.len();
    proof {
        assert(s@.skip(0) =~= s@);
    }
    let (count, clen) = match parse_compact(s, 0) {
        Some(p) => p,
        None => {
            return false;
        },
    };
    if count == 0 {
        return false;
    }
    let mut off: usize = clen;
    let mut i: u64 = 0;
    while i < count
        invariant
            n == s@.len(),
            off <= n,
            i <= count,
            pre + post < 0x10000,
            valid_vector(s@, pre as nat, post as nat) == elements_ok(
                s@.skip(off as int),
                (count - i) as nat,
                pre as nat,
                post as nat,
            ),
        decreases count - i,
    {
        let ghost elem = s@.skip(off as int);
        if n - off <= pre {
            return false;
        }
        proof {
            assert(elem.skip(pre as int) =~= s@.skip(off + pre));
        }
        let (script_len, sl_len) = match parse_compact(s, off + pre) {
            Some(p) => p,
            None => {
                return false;
            },
        };
        let rem: u64 = (n - off) as u64;
        let fixed: u64 = (pre as u64) + (sl_len as u64) + (post as u64);
        if fixed > rem || script_len > rem - fixed {
            return false;
        }
        let step: usize = pre + sl_len + (script_len as usize) + post;
        proof {
            assert(element_ok(elem, pre as nat, post as nat));
            assert(element_len(elem, pre as nat, post as nat) == step);
            assert(elem.skip(step as int) =~= s@.skip(off + step));
        }
        off = off + step;
        i = i + 1;
    }
    off == n
}

/// Checks that a transaction input vector is properly formed: a compact-size
/// input count of at least one followed by exactly that many inputs.
pub fn validate_vin(vin: &[u8]) -> (r: bool)
    ensures
        r == valid_vin(vin@),
{
    validate_vector(vin, 36, 4)
}

/// Checks that a transaction output vector is properly formed: a
/// compact-size output count of at least one followed by exactly that many
/// outputs.
pub fn validate_vout(vout: &[u8]) -> (r: bool)
    ensures
        r == valid_vout(vout@),
{
    validate_vector(vout, 8, 0)
}

} // verus!
