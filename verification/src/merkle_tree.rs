//! Root of a four-leaf SHA-256 Merkle tree.
use vstd::prelude::*;
use crate::digests::{digest_to_vec, sha256, sha256_digest, concat_32};

verus! {

/// Merkle root of four leaves: each leaf hashed, sibling hashes concatenated
/// and hashed, level by level.
pub open spec fn merkle_root4(l1: Seq<u8>, l2: Seq<u8>, l3: Seq<u8>, l4: Seq<u8>) -> Seq<u8> {
    sha256(sha256(sha256(l1) + sha256(l2)) + sha256(sha256(l3) + sha256(l4)))
}

/// Output of the harness: empty for fewer than 128 bytes, otherwise the root
/// of the tree over the four 32-byte leaves that open the input.
pub open spec fn merkle_tree_output(input: Seq<u8>) -> Seq<u8> {
    if input.len() < 128 {
        seq![]
    } else {
        merkle_root4(
            input.subrange(0, 32),
            input.subrange(32, 64),
            input.subrange(64, 96),
            input.subrange(96, 128),
        )
    }
}

/// Computes the root of the tree over four leaves.
pub fn merkle_tree(leaf1: &[u8], leaf2: &[u8], leaf3: &[u8], leaf4: &[u8]) -> (root: [u8; 32])
    ensures
        root@ == merkle_root4(leaf1@, leaf2@, leaf3@, leaf4@),
{
    let h0 = sha256_digest(leaf1);
    let h1 = sha256_digest(leaf2);
    let h2 = sha256_digest(leaf3);
    let h3 = sha256_digest(leaf4);
    let pair_01 = concat_32(&h0, &h1);
    let h01 = sha256_digest(&pair_01);
    let pair_23 = concat_32(&h2, &h3);
    let h23 = sha256_digest(&pair_23);
    let root_pair = concat_32(&h01, &h23);
    sha256_digest(&root_pair)
}

/// Splits the input into four leaves and computes their root.
pub fn harness(input: Vec<u8>) -> (out: Vec<u8>)
    ensures
        out@ == merkle_tree_output(input@),
{
    if input.len() < 128 {
        return Vec::new();
    }
    let s = input.as_slice();
    let leaf1 = slice_range(s, 0, 32);
    let leaf2 = slice_range(s, 32, 64);
    let leaf3 = slice_range(s, 64, 96);
    let leaf4 = slice_range(s, 96, 128);
    let root = merkle_tree(leaf1.as_slice(), leaf2.as_slice(), leaf3.as_slice(), leaf4.as_slice());
    digest_to_vec(&root)
}

/// The bytes `s[lo..hi]`, copied.
pub fn slice_range(s: &[u8], lo: usize, hi: usize) -> (part: Vec<u8>)
    requires
        lo <= hi <= s@.len(),
    ensures
        part@ == s@.subrange(lo as int, hi as int),
{
    let mut part: Vec<u8> = Vec::new();
    let mut i: usize = lo;
    while i < hi
        invariant
            lo <= i <= hi <= s@.len(),
            part@ == s@.subrange(lo as int, i as int),
        decreases hi - i,
    {
        part.push(s[i]);
        assert(part@ =~= s@.subrange(lo as int, i + 1));
        i = i + 1;
    }
    part
}

} // verus!
