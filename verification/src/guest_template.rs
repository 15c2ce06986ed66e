//! The template guest: it reports the length of its input.
use vstd::prelude::*;
use crate::bytes::{le_bytes, push_le};

verus! {

/// Encodes the input's length as a little-endian `u64`.
pub fn harness(input: Vec<u8>) -> (out: Vec<u8>)
    ensures
        out@ == le_bytes(input@.len(), 8),
{
    let result: u64 = input.len() as u64;
    let mut out: Vec<u8> = Vec::new();
    push_le(&mut out, result as u128, 8);
    out
}

} // verus!
