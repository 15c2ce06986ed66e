//! 256-bit arithmetic benchmark: the truncated product of two 256-bit numbers
//! and a constant-time comparison of them.
use vstd::prelude::*;
use crypto_bigint::{Encoding, U256};
use crypto_bigint::subtle::ConstantTimeGreater;
use crate::bytes::{le_value, pow256, push_le};

verus! {

/// Calls `crypto_bigint::U256::wrapping_mul` on the operands read by
/// `U256::from_le_slice`, and returns the product's `to_le_bytes`. Trusted:
/// the product is the 256-bit wrapping product of the two numbers.
#[verifier::external_body]
fn wrapping_product(a: &[u8], b: &[u8]) -> (p: [u8; 32])
    requires
        a@.len() == 32,
        b@.len() == 32,
    ensures
        le_value(p@) == (le_value(a@) * le_value(b@)) % pow256(32),
{
    U256::from_le_slice(a).wrapping_mul(&U256::from_le_slice(b)).to_le_bytes()
}

/// Calls `ConstantTimeGreater::ct_gt` for `crypto_bigint::U256` on the
/// operands read by `U256::from_le_slice`, and `Choice::unwrap_u8` on the
/// outcome. Trusted: 1 exactly when the first number is the greater, else 0.
#[verifier::external_body]
fn greater_flag(a: &[u8], b: &[u8]) -> (f: u8)
    requires
        a@.len() == 32,
        b@.len() == 32,
    ensures
        f == (if le_value(a@) > le_value(b@) { 1u8 } else { 0u8 }),
{
    U256::from_le_slice(a).ct_gt(&U256::from_le_slice(b)).unwrap_u8()
}

/// Output of the harness: empty for fewer than 64 bytes, otherwise 33 bytes
/// whose first 32 encode the truncated product of the two leading 256-bit
/// numbers and whose last is 1 when the first is the greater.
pub open spec fn bigint_output_ok(input: Seq<u8>, out: Seq<u8>) -> bool {
    if input.len() < 64 {
        out == Seq::<u8>::empty()
    } else {
        let a = le_value(input.subrange(0, 32));
        let b = le_value(input.subrange(32, 64));
        &&& out.len() == 33
        &&& le_value(out.subrange(0, 32)) == (a * b) % pow256(32)
        &&& out[32] == (if a > b { 1u8 } else { 0u8 })
    }
}

/// Decodes the two numbers, multiplies and compares them.
pub fn harness(input: Vec<u8>) -> (out: Vec<u8>)
    ensures
        bigint_output_ok(input@, out@),
{
    if input.len() < 64 {
        return Vec::new();
    }
    let a = crate::merkle_tree::slice_range(input.as_slice(), 0, 32);
    let b = crate::merkle_tree::slice_range(input.as_slice(), 32, 64);
    let product = wrapping_product(a.as_slice(), b.as_slice());
    let a_gt_b = greater_flag(a.as_slice(), b.as_slice());
    let mut out = crate::digests::digest_to_vec(&product);
    out.push(a_gt_b);
    assert(out@.subrange(0, 32) =~= product@);
    out
}

} // verus!
