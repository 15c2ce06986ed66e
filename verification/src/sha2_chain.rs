//! Hash chain: SHA-256 applied repeatedly to a 32-byte seed.
use vstd::prelude::*;
use crate::digests::{digest_to_vec, sha256, sha256_digest, first_32};
use crate::bytes::{le_at, read_u32_le};

verus! {

/// The seed hashed `k` times.
pub open spec fn sha256_chain(seed: Seq<u8>, k: nat) -> Seq<u8>
    decreases k,
{
    if k == 0 {
        seed
    } else {
        sha256(sha256_chain(seed, (k - 1) as nat))
    }
}

/// Output of the harness: empty for fewer than 36 bytes, otherwise the seed
/// (first 32 bytes) hashed as many times as the following `u32` says.
pub open spec fn sha2_chain_output(input: Seq<u8>) -> Seq<u8> {
    if input.len() < 36 {
        seq![]
    } else {
        sha256_chain(input.subrange(0, 32), le_at(input, 32, 4))
    }
}

/// Hashes the seed `num_iters` times.
pub fn sha2_chain(seed: [u8; 32], num_iters: u32) -> (hash: [u8; 32])
    ensures
        hash@ == sha256_chain(seed@, num_iters as nat),
{
    let mut hash = seed;
    let mut i: u32 = 0;
    while i < num_iters
        invariant
            i <= num_iters,
            hash@ == sha256_chain(seed@, i as nat),
        decreases num_iters - i,
    {
        hash = sha256_digest(&hash);
        i = i + 1;
    }
    hash
}

/// Decodes the seed and the iteration count and runs the chain.
pub fn harness(input: Vec<u8>) -> (out: Vec<u8>)
    ensures
        out@ == sha2_chain_output(input@),
{
    if input.len() < 36 {
        return Vec::new();
    }
    let seed = first_32(input.as_slice());
    let num_iters = read_u32_le(input.as_slice(), 32);
    let hash = sha2_chain(seed, num_iters);
    digest_to_vec(&hash)
}

} // verus!
