//! Arbitrary-precision unsigned integers represented as big-endian byte
//! vectors, with the arithmetic done by `num::bigint::BigUint` behind trusted
//! wrappers whose contracts speak of the mathematical value of the bytes.

use vstd::prelude::*;

verus! {

/// The unsigned integer value of a big-endian byte string.
pub open spec fn be_value(s: Seq<u8>) -> nat
    decreases s.len(),
{
    if s.len() == 0 {
        0
    } else {
        (be_value(s.drop_last()) * 256 + s.last()) as nat
    }
}

pub proof fn lemma_be_value_push(s: Seq<u8>, b: u8)
    ensures
        be_value(s.push(b)) == 256 * be_value(s) + b,
{
    assert(s.push(b).drop_last() =~= s);
    assert(s.push(b).last() == b);
}

/// Relies on `num::bigint::BigUint`: `from_bytes_be` reads a big-endian byte
/// string, `+` adds the two values, `to_bytes_be` writes the sum back out in
/// big-endian order.
#[verifier::external_body]
pub fn big_add(a: &Vec<u8>, b: &Vec<u8>) -> (r: Vec<u8>)
    ensures
        be_value(r@) == be_value(a@) + be_value(b@),
{
    let x = num::bigint::BigUint::from_bytes_be(a) + num::bigint::BigUint::from_bytes_be(b);
    x.to_bytes_be()
}

/// Relies on `num::bigint::BigUint`: `from_bytes_be`, `*` with a `u64`
/// factor, and `to_bytes_be`.
#[verifier::external_body]
pub fn big_mul_u64(a: &Vec<u8>, k: u64) -> (r: Vec<u8>)
    ensures
        be_value(r@) == be_value(a@) * k,
{
    let x = num::bigint::BigUint::from_bytes_be(a) * k;
    x.to_bytes_be()
}

/// Relies on `num::bigint::BigUint`: `from_bytes_be`, `/` (flooring division,
/// which panics on a zero divisor, hence the precondition), `to_bytes_be`.
#[verifier::external_body]
pub fn big_div(a: &Vec<u8>, b: &Vec<u8>) -> (r: Vec<u8>)
    requires
        be_value(b@) > 0,
    ensures
        be_value(r@) == be_value(a@) / be_value(b@),
{
    let x = num::bigint::BigUint::from_bytes_be(a) / num::bigint::BigUint::from_bytes_be(b);
    x.to_bytes_be()
}

/// Relies on `num::bigint::BigUint`: `from_bytes_be` and the `Ord` impl,
/// which orders big integers by their numeric value.
#[verifier::external_body]
pub fn big_lt(a: &Vec<u8>, b: &Vec<u8>) -> (r: bool)
    ensures
        r == (be_value(a@) < be_value(b@)),
{
    num::bigint::BigUint::from_bytes_be(a) < num::bigint::BigUint::from_bytes_be(b)
}

/// Numeric equality of two big-endian byte strings; leading zero bytes do not
/// affect the value, so the byte strings themselves may differ.
pub fn big_eq(a: &Vec<u8>, b: &Vec<u8>) -> (r: bool)
    ensures
        r == (be_value(a@) == be_value(b@)),
{
    !big_lt(a, b) && !big_lt(b, a)
}

/// Numeric order `a >= b` of two big-endian byte strings.
pub fn big_ge(a: &Vec<u8>, b: &Vec<u8>) -> (r: bool)
    ensures
        r == (be_value(a@) >= be_value(b@)),
{
    !big_lt(a, b)
}

} // verus!
