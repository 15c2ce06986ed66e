//! String benchmark: the decimal renderings of `0..n`, concatenated.
use vstd::prelude::*;
use crate::bytes::{le_at, read_u32_le};

verus! {

/// ASCII decimal rendering of `i`, most significant digit first.
pub open spec fn decimal(i: nat) -> Seq<u8>
    decreases i,
{
    if i < 10 {
        seq![(48 + i) as u8]
    } else {
        decimal(i / 10) + seq![(48 + i % 10) as u8]
    }
}

/// Decimal renderings of `0..n`, concatenated.
pub open spec fn decimals_below(n: nat) -> Seq<u8>
    decreases n,
{
    if n == 0 {
        seq![]
    } else {
        decimals_below((n - 1) as nat) + decimal((n - 1) as nat)
    }
}

/// Appends the decimal rendering of `v` to `out`.
pub fn push_decimal(out: &mut Vec<u8>, v: u32)
    ensures
        final(out)@ == old(out)@ + decimal(v as nat),
    decreases v,
{
    if v >= 10 {
        push_decimal(out, v / 10);
    }
    out.push(48 + (v % 10) as u8);
    assert(out@ =~= old(out)@ + decimal(v as nat));
}

/// Number of renderings the harness concatenates: the leading `i32`, or 0
/// when it is not positive.
pub open spec fn harness_count(input: Seq<u8>) -> nat {
    let n = le_at(input, 0, 4) as u32 as i32;
    if n > 0 {
        n as nat
    } else {
        0
    }
}

/// Output of the harness: empty for fewer than four bytes, otherwise the
/// renderings of `0..n` for the leading `i32` `n`.
pub open spec fn string_concat_output(input: Seq<u8>) -> Seq<u8> {
    if input.len() < 4 {
        seq![]
    } else {
        decimals_below(harness_count(input))
    }
}

/// Decodes `n` and concatenates the decimal renderings of `0..n`.
pub fn harness(input: Vec<u8>) -> (out: Vec<u8>)
    ensures
        out@ == string_concat_output(input@),
{
    if input.len() < 4 {
        return Vec::new();
    }
    let n = read_u32_le(input.as_slice(), 0) as i32;
    let mut res: Vec<u8> = Vec::new();
    let mut i: i32 = 0;
    while i < n
        invariant
            0 <= i,
            n < 0 ==> i == 0,
            n >= 0 ==> i <= n,
            res@ == decimals_below(i as nat),
        decreases n - i,
    {
        push_decimal(&mut res, i as u32);
        i = i + 1;
    }
    assert(i as nat == harness_count(input@));
    res
}

} // verus!
