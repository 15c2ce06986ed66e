//! Hash chain: Keccak-256 applied one to eight times to a 32-byte seed.
use vstd::prelude::*;
use crate::digests::{digest_to_vec, keccak256, keccak256_digest, first_32};

verus! {

/// The seed hashed `k` times.
pub open spec fn keccak_chain(seed: Seq<u8>, k: nat) -> Seq<u8>
    decreases k,
{
    if k == 0 {
        seed
    } else {
        keccak256(keccak_chain(seed, (k - 1) as nat))
    }
}

/// Output of the harness: empty for fewer than 33 bytes, otherwise the seed
/// (first 32 bytes) hashed `input[32] % 8 + 1` times.
pub open spec fn keccak_chain_output(input: Seq<u8>) -> Seq<u8> {
    if input.len() < 33 {
        seq![]
    } else {
        keccak_chain(input.subrange(0, 32), (input[32] % 8) as nat + 1)
    }
}

/// Hashes the seed `num_iters` times.
pub fn sha3_chain(seed: [u8; 32], num_iters: u32) -> (hash: [u8; 32])
    ensures
        hash@ == keccak_chain(seed@, num_iters as nat),
{
    let mut hash = seed;
    let mut i: u32 = 0;
    while i < num_iters
        invariant
            i <= num_iters,
            hash@ == keccak_chain(seed@, i as nat),
        decreases num_iters - i,
    {
        hash = keccak256_digest(&hash);
        i = i + 1;
    }
    hash
}

/// Decodes the seed and the iteration count and runs the chain.
pub fn harness(input: Vec<u8>) -> (out: Vec<u8>)
    ensures
        out@ == keccak_chain_output(input@),
{
    if input.len() < 33 {
        return Vec::new();
    }
    let msg = first_32(input.as_slice());
    let num_iters: u32 = (input[32] % 8) as u32 + 1;
    let hash = sha3_chain(msg, num_iters);
    digest_to_vec(&hash)
}

/// The count byte `b` asks for `b % 8 + 1` rounds: a byte below 8 gives
/// exactly `b + 1` rounds of Keccak-256 over the seed, so every count from 1 to
/// 8 is reachable, and bytes eight apart give the same chain.
pub proof fn law_round_count(input: Seq<u8>)
    requires
        input.len() >= 33,
    ensures
        input[32] < 8 ==> keccak_chain_output(input) == keccak_chain(input.subrange(0, 32), input[32] as nat + 1),
        input[32] < 248 ==> keccak_chain_output(input) == keccak_chain_output(input.update(32, (input[32] + 8) as u8)),
{
    let moved = input.update(32, (input[32] + 8) as u8);
    if input[32] < 248 {
        assert(moved.subrange(0, 32) =~= input.subrange(0, 32));
        assert(moved[32] % 8 == input[32] % 8);
    }
}

} // verus!
