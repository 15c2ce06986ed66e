//! Stack-array reduction: the sum of 1024 ones.
use vstd::prelude::*;
use crate::bytes::{le_bytes, push_le};

verus! {

/// Sums a stack array of 1024 ones.
pub fn overflow_stack() -> (sum: u32)
    ensures
        sum == 1024,
{
    let arr = [1u32; 1024];
    let mut sum: u32 = 0;
    let mut i: usize = 0;
    while i < 1024
        invariant
            i <= 1024,
            sum == i,
            forall|j: int| 0 <= j < 1024 ==> arr@[j] == 1,
        decreases 1024 - i,
    {
        sum = sum + arr[i];
        i = i + 1;
    }
    sum
}

/// The harness ignores its input and encodes the sum in four bytes.
pub fn harness(input: Vec<u8>) -> (out: Vec<u8>)
    ensures
        out@ == le_bytes(1024, 4),
{
    let _ = &input;
    let result: u32 = overflow_stack();
    let mut out: Vec<u8> = Vec::new();
    push_le(&mut out, result as u128, 4);
    assert(out@ =~= le_bytes(1024, 4));
    out
}

} // verus!
