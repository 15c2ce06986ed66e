//! Merkle inclusion check over an 8-level binary tree whose sibling hashes
//! sit in a committed node arena: the proof names, level by level, the arena
//! slot of the sibling and the side on which the running hash sits.
use vstd::prelude::*;
use crate::bits::{rotl64, rotate_left_u64};

verus! {

/// Number of levels of the tree.
pub const LEVELS: usize = 8;

/// Multiply-rotate-xor compression of an ordered pair of hashes.
pub open spec fn spec_hash_pair(left: u64, right: u64) -> u64 {
    let h = left.wrapping_mul(0x9E37_79B9_7F4A_7C15) ^ right.wrapping_mul(0x6C62_272E_07BB_0142);
    let h2 = (rotl64(h, 17) as u64).wrapping_add(h.wrapping_mul(0xBF58_476D_1CE4_E5B9));
    h2 ^ (h2 >> 32u64)
}

/// Arena slot of the sibling at `level` (three bits of a four-bit field).
pub open spec fn slot_of(slot_map: u64, level: nat) -> int {
    ((slot_map >> (level * 4) as u64) & 0x7) as int
}

/// Whether the running hash is the right child at `level`.
pub open spec fn goes_right(path_bits: u64, level: nat) -> bool {
    (path_bits >> level as u64) & 1 != 0
}

/// The hash reached after combining the first `levels` siblings with `leaf`.
pub open spec fn path_root(leaf: u64, arena: Seq<u64>, slot_map: u64, path_bits: u64, levels: nat) -> u64
    decreases levels,
{
    if levels == 0 {
        leaf
    } else {
        let cur = path_root(leaf, arena, slot_map, path_bits, (levels - 1) as nat);
        let sibling = arena[slot_of(slot_map, (levels - 1) as nat)];
        if goes_right(path_bits, (levels - 1) as nat) {
            spec_hash_pair(sibling, cur)
        } else {
            spec_hash_pair(cur, sibling)
        }
    }
}

/// Compresses an ordered pair of hashes.
pub fn hash_pair(left: u64, right: u64) -> (h: u64)
    ensures
        h == spec_hash_pair(left, right),
{
    let h = left.wrapping_mul(0x9E37_79B9_7F4A_7C15) ^ right.wrapping_mul(0x6C62_272E_07BB_0142);
    let h = rotate_left_u64(h, 17).wrapping_add(h.wrapping_mul(0xBF58_476D_1CE4_E5B9));
    h ^ (h >> 32)
}

/// Resolves a node id to its arena slot; every id names a slot.
pub fn cold_resolve_node(slot: usize) -> (resolved: Result<usize, ()>)
    ensures
        resolved == Ok::<usize, ()>(slot),
{
    Ok(slot)
}

/// Recomputes the root from `leaf` and the arena `s0..s7` along the path that
/// `slot_map` and `path_bits` describe, and compares it with `committed_root`.
pub fn verify_merkle_inclusion(
    leaf: u64,
    s0: u64,
    s1: u64,
    s2: u64,
    s3: u64,
    s4: u64,
    s5: u64,
    s6: u64,
    s7: u64,
    slot_map: u64,
    path_bits: u64,
    committed_root: u64,
) -> (included: bool)
    ensures
        included == (path_root(leaf, seq![s0, s1, s2, s3, s4, s5, s6, s7], slot_map, path_bits, 8)
            == committed_root),
{
    let node_arena: [u64; 8] = [s0, s1, s2, s3, s4, s5, s6, s7];
    let ghost arena = seq![s0, s1, s2, s3, s4, s5, s6, s7];
    assert(node_arena@ =~= arena);
    let mut current = leaf;
    let mut level: usize = 0;
    while level < 8
        invariant
            level <= 8,
            node_arena@ == arena,
            current == path_root(leaf, arena, slot_map, path_bits, level as nat),
        decreases 8 - level,
    {
        let shift = (level * 4) as u64;
        let slot = ((slot_map >> shift) & 0x7) as usize;
        proof {
            let sm = slot_map >> shift;
            assert(sm & 0x7 <= 7) by (bit_vector);
        }
        let sibling = match cold_resolve_node(slot) {
            Ok(p) => node_arena[p],
            Err(_) => {
                return false;
            },
        };
        let bit = (path_bits >> (level as u64)) & 1;
        current = if bit == 0 {
            hash_pair(current, sibling)
        } else {
            hash_pair(sibling, current)
        };
        level = level + 1;
    }
    current == committed_root
}

} // verus!
