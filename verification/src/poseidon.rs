//! Starknet Poseidon hash of an arbitrary byte string: the bytes are cut into
//! 31-byte chunks, each right-aligned in a 32-byte big-endian field element,
//! and the elements are absorbed in order.
use vstd::prelude::*;
use starknet_crypto::{Felt, PoseidonHasher};
use crate::digests::digest_to_vec;

verus! {

/// Bytes per field element chunk.
pub const FELT_BYTE_SIZE: usize = 31;

/// Starknet Poseidon hash (32-byte big-endian encoding) of the field elements
/// whose 32-byte big-endian encodings are `chunks`.
pub uninterp spec fn poseidon_hash_of(chunks: Seq<Seq<u8>>) -> Seq<u8>;

/// Calls `starknet_crypto::PoseidonHasher` (`new`, `update` per element,
/// `finalize`), converting each chunk with `Felt::from_bytes_be` and the
/// result with `Felt::to_bytes_be`. Trusted: the result is the Poseidon hash
/// of the elements, a function of the chunks alone.
#[verifier::external_body]
fn poseidon_digest(chunks: &Vec<[u8; 32]>) -> (digest: [u8; 32])
    ensures
        digest@ == poseidon_hash_of(chunks@.map_values(|c: [u8; 32]| c@)),
{
    let mut hasher = PoseidonHasher::new();
    for chunk in chunks.iter() {
        hasher.update(Felt::from_bytes_be(chunk));
    }
    hasher.finalize().to_bytes_be()
}

/// Number of chunks of a message of `len` bytes.
pub open spec fn chunk_count(len: nat) -> nat {
    (len + 30) / 31
}

/// Chunk `k` of `input`, right-aligned in 32 bytes with leading zeros.
pub open spec fn felt_chunk(input: Seq<u8>, k: nat) -> Seq<u8> {
    let lo = 31 * k;
    let hi = if lo + 31 <= input.len() { lo + 31 } else { input.len() };
    Seq::new((32 - (hi - lo)) as nat, |i: int| 0u8) + input.subrange(lo as int, hi as int)
}

/// All chunks of `input`.
pub open spec fn felt_chunks(input: Seq<u8>) -> Seq<Seq<u8>> {
    Seq::new(chunk_count(input.len()), |k: int| felt_chunk(input, k as nat))
}

/// Every chunk is a 32-byte big-endian encoding whose leading byte is zero, so
/// each is below `2^248` and a field element as it stands; each carries at
/// least one byte of the input, the full chunks exactly 31, in input order.
pub proof fn law_chunks_fit_field(input: Seq<u8>, k: nat)
    requires
        k < chunk_count(input.len()),
    ensures
        felt_chunk(input, k).len() == 32,
        felt_chunk(input, k)[0] == 0,
        31 * k < input.len(),
        31 * k + 31 <= input.len() ==> felt_chunk(input, k).subrange(1, 32) == input.subrange(
            31 * k as int,
            (31 * k + 31) as int,
        ),
{
    let n = input.len();
    assert(31 * k < n) by (nonlinear_arith)
        requires
            k < (n + 30) / 31,
    ;
    let c = felt_chunk(input, k);
    if 31 * k + 31 <= n {
        assert(c.subrange(1, 32) =~= input.subrange(31 * k as int, (31 * k + 31) as int));
    }
}

/// Cuts `input` into 31-byte chunks, each right-aligned in a 32-byte buffer.
pub fn bytes_to_felts(input: &[u8]) -> (chunks: Vec<[u8; 32]>)
    ensures
        chunks@.map_values(|c: [u8; 32]| c@) == felt_chunks(input@),
{
    let len = input.len();
    let count: usize = len / 31 + if len % 31 != 0 {
        1
    } else {
        0
    };
    assert(count == chunk_count(len as nat));
    let mut chunks: Vec<[u8; 32]> = Vec::new();
    let mut k: usize = 0;
    while k < count
        invariant
            len == input@.len(),
            count == chunk_count(len as nat),
            k <= count,
            chunks@.len() == k,
            forall|j: int| 0 <= j < k ==> #[trigger] chunks@[j]@ == felt_chunk(input@, j as nat),
        decreases count - k,
    {
        let lo = 31 * k;
        let hi = if len - lo >= 31 {
            lo + 31
        } else {
            len
        };
        let clen = hi - lo;
        let mut buffer = [0u8; 32];
        let mut j: usize = 0;
        while j < clen
            invariant
                lo + clen == hi <= len == input@.len(),
                clen <= 31,
                j <= clen,
                forall|i: int| 0 <= i < 32 - clen ==> buffer@[i] == 0,
                forall|i: int| 0 <= i < j ==> buffer@[32 - clen + i] == #[trigger] input@[lo + i],
                forall|i: int| 32 - clen + j <= i < 32 ==> buffer@[i] == 0,
            decreases clen - j,
        {
            buffer[32 - clen + j] = input[lo + j];
            j = j + 1;
        }
        proof {
            let c = felt_chunk(input@, k as nat);
            assert(c.len() == 32);
            assert forall|i: int| 0 <= i < 32 implies buffer@[i] == c[i] by {
                if i >= 32 - clen {
                    assert(buffer@[32 - clen + (i - (32 - clen))] == input@[lo + (i - (32 - clen))]);
                }
            }
            assert(buffer@ =~= c);
        }
        chunks.push(buffer);
        k = k + 1;
    }
    assert(chunks@.map_values(|c: [u8; 32]| c@) =~= felt_chunks(input@));
    chunks
}

/// Hashes the whole input with Poseidon over its field-element chunks.
pub fn harness(input: Vec<u8>) -> (out: Vec<u8>)
    ensures
        out@ == poseidon_hash_of(felt_chunks(input@)),
{
    let felt_chunks = bytes_to_felts(input.as_slice());
    let hash = poseidon_digest(&felt_chunks);
    digest_to_vec(&hash)
}

} // verus!
