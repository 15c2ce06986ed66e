//! SHA3-256 benchmark: the whole input is the message.
use vstd::prelude::*;
use crate::digests::{digest_to_vec, sha3_256, sha3_256_digest};

verus! {

/// Hashes the input with SHA3-256 and returns the 32-byte digest.
pub fn harness(input: Vec<u8>) -> (out: Vec<u8>)
    ensures
        out@ == sha3_256(input@),
{
    let digest: [u8; 32] = sha3_256_digest(input.as_slice());
    digest_to_vec(&digest)
}

} // verus!
