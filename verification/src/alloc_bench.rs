//! Allocation benchmark: a vector of `0..100` is built and indexed.
use vstd::prelude::*;
use crate::bytes::{le_bytes, le_at, push_le, read_u32_le};

verus! {

/// Builds the vector `[0, 1, ..., 99]` and returns its entry `n`.
pub fn alloc_index(n: u32) -> (v: u32)
    requires
        n < 100,
    ensures
        v == n,
{
    let mut v: Vec<u32> = Vec::new();
    let mut i: u32 = 0;
    while i < 100
        invariant
            i <= 100,
            v@.len() == i,
            forall|j: int| 0 <= j < i ==> v@[j] == j,
        decreases 100 - i,
    {
        v.push(i);
        i = i + 1;
    }
    v[n as usize]
}

/// Output of the benchmark harness for `input`: empty for fewer than four
/// bytes, otherwise the 4-byte encoding of the entry the leading `u32` names.
pub open spec fn alloc_harness_output(input: Seq<u8>) -> Seq<u8> {
    if input.len() < 4 {
        seq![]
    } else {
        le_bytes(le_at(input, 0, 4), 4)
    }
}

/// Decodes the index, runs the benchmark and encodes its result; an index of
/// 100 or more is out of the vector's range.
pub fn harness(input: Vec<u8>) -> (out: Vec<u8>)
    requires
        input@.len() < 4 || le_at(input@, 0, 4) < 100,
    ensures
        out@ == alloc_harness_output(input@),
{
    if input.len() < 4 {
        return Vec::new();
    }
    let n = read_u32_le(input.as_slice(), 0);
    let result: u32 = alloc_index(n);
    let mut out: Vec<u8> = Vec::new();
    push_le(&mut out, result as u128, 4);
    assert(out@ =~= alloc_harness_output(input@));
    out
}

} // verus!
