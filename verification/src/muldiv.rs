//! Multiply-then-divide benchmark on 32-bit words.
use vstd::prelude::*;
use crate::bytes::{le_bytes, le_at, push_le, read_u32_le};

verus! {

/// Output of the harness: empty for fewer than twelve bytes or a zero
/// divisor, otherwise the 4-byte encoding of `a * b / c`.
pub open spec fn muldiv_harness_output(input: Seq<u8>) -> Seq<u8> {
    if input.len() < 12 || le_at(input, 8, 4) == 0 {
        seq![]
    } else {
        le_bytes(le_at(input, 0, 4) * le_at(input, 4, 4) / le_at(input, 8, 4), 4)
    }
}

/// Decodes `a`, `b`, `c` and computes `a * b / c`; the product must fit in a `u32`.
pub fn harness(input: Vec<u8>) -> (out: Vec<u8>)
    requires
        input@.len() < 12 || le_at(input@, 8, 4) == 0 || le_at(input@, 0, 4) * le_at(input@, 4, 4)
            <= u32::MAX,
    ensures
        out@ == muldiv_harness_output(input@),
{
    if input.len() < 12 {
        return Vec::new();
    }
    let a = read_u32_le(input.as_slice(), 0);
    let b = read_u32_le(input.as_slice(), 4);
    let c = read_u32_le(input.as_slice(), 8);
    if c == 0 {
        return Vec::new();
    }
    let result: u32 = a * b / c;
    let mut out: Vec<u8> = Vec::new();
    push_le(&mut out, result as u128, 4);
    assert(out@ =~= muldiv_harness_output(input@));
    out
}

} // verus!
