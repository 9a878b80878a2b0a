//! Stateless verification engine for Bitcoin simplified payment verification
//! (SPV): it checks that a transaction is included in a block that belongs to
//! a hash-linked header chain carrying enough accumulated proof of work and
//! anchored at a known difficulty epoch.

pub mod bignum;
pub mod bytes;
pub mod codec;
pub mod decode;
pub mod epoch;
pub mod hashes;
pub mod header;
pub mod merkle;
pub mod outcome;
pub mod spv;
pub mod tx;
