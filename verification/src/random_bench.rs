//! Random-number workload: a bounded range is read from the input and a value
//! drawn from it by a generator seeded from the entropy source is combined with
//! a second draw from the same range.
use vstd::prelude::*;
use rand::{Rng, SeedableRng};
use crate::bytes::{le_at, le_bytes, push_le, read_u32_le};

verus! {

/// Calls `SeedableRng::from_rng` for `rand::rngs::StdRng` with
/// `rand::rngs::OsRng`, then `Rng::gen_range(a..b)`. Trusted: `None` where
/// seeding from the operating system fails, otherwise a value in `[a, b)`, the
/// range `gen_range` documents; the value depends on the entropy source, so
/// nothing more is stated.
#[verifier::external_body]
fn rand_v08(a: u32, b: u32) -> (r: Option<u32>)
    requires
        a < b,
    ensures
        r matches Some(x) ==> a <= x < b,
{
    let mut rng = rand::rngs::StdRng::from_rng(rand::rngs::OsRng).ok()?;
    Some(rng.gen_range(a..b))
}

/// The range that an input asks for: `a` is the first little-endian word and
/// `b` the second, raised to `a + 1` when it is not above `a`. Inputs shorter
/// than 8 bytes, and `a == u32::MAX`, ask for none.
pub open spec fn spec_random_range(input: Seq<u8>) -> Option<(u32, u32)> {
    if input.len() < 8 {
        None
    } else {
        let a = le_at(input, 0, 4);
        let b0 = le_at(input, 4, 4);
        if b0 > a {
            Some((a as u32, b0 as u32))
        } else if a < u32::MAX {
            Some((a as u32, (a + 1) as u32))
        } else {
            None
        }
    }
}

/// Reads the range that an input asks for.
pub fn random_range(input: &[u8]) -> (r: Option<(u32, u32)>)
    ensures
        r == spec_random_range(input@),
        r matches Some((a, b)) ==> a < b,
{
    if input.len() < 8 {
        return None;
    }
    let a = read_u32_le(input, 0);
    let b0 = read_u32_le(input, 4);
    let b = if b0 > a {
        b0
    } else {
        a.wrapping_add(1)
    };
    if b <= a {
        return None;
    }
    Some((a, b))
}

/// The 4-byte little-endian encoding of the wrapping sum of two draws.
pub fn encode_draw_sum(draw: u32, other_draw: u32) -> (out: Vec<u8>)
    ensures
        out@ == le_bytes(draw.wrapping_add(other_draw) as nat, 4),
{
    let result: u32 = draw.wrapping_add(other_draw);
    let mut out: Vec<u8> = Vec::new();
    push_le(&mut out, result as u128, 4);
    out
}

/// Draws a value from `[a, b)` and returns the 4-byte encoding of its
/// wrapping sum with `other_draw`, a draw from the same range made by a second
/// generator; empty where the generator could not be seeded.
pub fn combined_draws(a: u32, b: u32, other_draw: u32) -> (out: Vec<u8>)
    requires
        a < b,
        a <= other_draw < b,
    ensures
        out@.len() == 0 || exists|d: u32| a <= d < b && out@ == le_bytes(d.wrapping_add(other_draw) as nat, 4),
{
    match rand_v08(a, b) {
        None => Vec::new(),
        Some(d) => encode_draw_sum(d, other_draw),
    }
}

} // verus!
