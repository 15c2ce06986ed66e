//! Stack-unwinding demonstration: the program returns 7 unless asked to
//! panic, which the verified library never does.
use vstd::prelude::*;
use crate::bytes::{le_bytes, push_le};

verus! {

/// Returns 7 when no panic is requested.
pub fn panic_backtrace_nostd(should_panic: bool) -> (v: u32)
    requires
        !should_panic,
    ensures
        v == 7,
{
    7
}

/// Output of the harness: empty for empty input, otherwise the 4-byte
/// encoding of 7.
pub open spec fn backtrace_harness_output(input: Seq<u8>) -> Seq<u8> {
    if input.len() == 0 {
        seq![]
    } else {
        le_bytes(7, 4)
    }
}

/// Decodes the panic flag (byte `1` requests a panic) and runs the demonstration.
pub fn harness(input: Vec<u8>) -> (out: Vec<u8>)
    requires
        input@.len() == 0 || input@[0] != 1,
    ensures
        out@ == backtrace_harness_output(input@),
{
    if input.len() == 0 {
        return Vec::new();
    }
    let should_panic: bool = input[0] == 1;
    let result: u32 = panic_backtrace_nostd(should_panic);
    let mut out: Vec<u8> = Vec::new();
    push_le(&mut out, result as u128, 4);
    assert(out@ =~= backtrace_harness_output(input@));
    out
}

} // verus!
