//! Transaction signature pre-check for a rollup: the transaction fields are
//! hashed, the hash must match the committed one, and the signature scalars
//! must be well formed; an accepted signature yields a binding commitment.
use vstd::prelude::*;
use crate::bits::{rotl64, rotate_left_u64};

verus! {

/// Signature format tag of secp256k1 signatures.
pub const SIG_FMT_SECP256K1: u64 = 1;

/// Upper bound that both signature scalars must stay below.
pub const SECP256K1_ORDER_HI: u64 = 0xFFFF_FFFE_FFFF_FFFF;

/// The transaction message hash.
pub open spec fn spec_msg_hash(chain_id: u64, nonce: u64, value: u64, gas: u64, data_hash: u64) -> u64 {
    let h0 = 0x0123_4567_89AB_CDEFu64 ^ chain_id.wrapping_mul(0x9E37_79B9_7F4A_7C15);
    let h1 = (rotl64(h0, 17) as u64) ^ nonce.wrapping_mul(0x6C62_272E_07BB_0142);
    let h2 = (rotl64(h1, 13) as u64) ^ value.wrapping_mul(0xBF58_476D_1CE4_E5B9);
    let h3 = (rotl64(h2, 19) as u64) ^ gas.wrapping_mul(0x94D0_49BB_1331_11EB);
    let h4 = (rotl64(h3, 7) as u64) ^ data_hash.wrapping_mul(0xDEAD_BEEF_CAFE_1234);
    h4 ^ (h4 >> 32u64)
}

/// Well-formedness of the signature components.
pub open spec fn spec_sig_valid(sig_format: u64, r: u64, s: u64) -> bool {
    &&& sig_format == SIG_FMT_SECP256K1
    &&& r != 0
    &&& s != 0
    &&& r < SECP256K1_ORDER_HI
    &&& s < SECP256K1_ORDER_HI
}

/// The commitment `H(r || s || msg_hash)`.
pub open spec fn spec_commitment(r: u64, s: u64, msg_hash: u64) -> u64 {
    r.wrapping_mul(0x9E37_79B9_7F4A_7C15) ^ s.wrapping_mul(0x6C62_272E_07BB_0142)
        ^ msg_hash.wrapping_mul(0xBF58_476D_1CE4_E5B9)
}

/// Outcome of the pre-check: the commitment, or `0` for a rejection.
pub open spec fn spec_sigcheck(
    sig_format: u64,
    r: u64,
    s: u64,
    tx_chain_id: u64,
    tx_nonce: u64,
    tx_value: u64,
    tx_gas: u64,
    tx_data_hash: u64,
    expected_msg_hash: u64,
) -> u64 {
    let msg_hash = spec_msg_hash(tx_chain_id, tx_nonce, tx_value, tx_gas, tx_data_hash);
    if msg_hash != expected_msg_hash || !spec_sig_valid(sig_format, r, s) {
        0
    } else {
        spec_commitment(r, s, msg_hash)
    }
}

/// Hashes the transaction fields.
pub fn compute_msg_hash(chain_id: u64, nonce: u64, value: u64, gas: u64, data_hash: u64) -> (h: u64)
    ensures
        h == spec_msg_hash(chain_id, nonce, value, gas, data_hash),
{
    let mut h: u64 = 0x0123_4567_89AB_CDEF;
    h = h ^ chain_id.wrapping_mul(0x9E37_79B9_7F4A_7C15);
    h = rotate_left_u64(h, 17) ^ nonce.wrapping_mul(0x6C62_272E_07BB_0142);
    h = rotate_left_u64(h, 13) ^ value.wrapping_mul(0xBF58_476D_1CE4_E5B9);
    h = rotate_left_u64(h, 19) ^ gas.wrapping_mul(0x94D0_49BB_1331_11EB);
    h = rotate_left_u64(h, 7) ^ data_hash.wrapping_mul(0xDEAD_BEEF_CAFE_1234);
    h = h ^ (h >> 32);
    h
}

/// Checks the format tag and the range of both signature scalars.
pub fn sig_components_valid(sig_format: u64, r: u64, s: u64) -> (ok: bool)
    ensures
        ok == spec_sig_valid(sig_format, r, s),
{
    let mut ok = sig_format == 1;
    ok = ok && r != 0;
    ok = ok && s != 0;
    ok = ok && r < SECP256K1_ORDER_HI;
    ok = ok && s < SECP256K1_ORDER_HI;
    ok
}

/// Runs the pre-check and returns the commitment, or `0` on rejection.
pub fn verify_tx_signature(
    sig_format: u64,
    r: u64,
    s: u64,
    tx_chain_id: u64,
    tx_nonce: u64,
    tx_value: u64,
    tx_gas: u64,
    tx_data_hash: u64,
    expected_msg_hash: u64,
) -> (commitment: u64)
    ensures
        commitment == spec_sigcheck(
            sig_format,
            r,
            s,
            tx_chain_id,
            tx_nonce,
            tx_value,
            tx_gas,
            tx_data_hash,
            expected_msg_hash,
        ),
{
    let msg_hash = compute_msg_hash(tx_chain_id, tx_nonce, tx_value, tx_gas, tx_data_hash);
    if msg_hash != expected_msg_hash {
        return 0;
    }
    if !sig_components_valid(sig_format, r, s) {
        return 0;
    }
    r.wrapping_mul(0x9E37_79B9_7F4A_7C15) ^ s.wrapping_mul(0x6C62_272E_07BB_0142)
        ^ msg_hash.wrapping_mul(0xBF58_476D_1CE4_E5B9)
}

/// A degenerate signature (either scalar zero) and a hash mismatch are always
/// rejected.
pub proof fn law_degenerate_signature_rejected(
    sig_format: u64,
    r: u64,
    s: u64,
    tx_chain_id: u64,
    tx_nonce: u64,
    tx_value: u64,
    tx_gas: u64,
    tx_data_hash: u64,
    expected_msg_hash: u64,
)
    requires
        r == 0 || s == 0 || spec_msg_hash(tx_chain_id, tx_nonce, tx_value, tx_gas, tx_data_hash)
            != expected_msg_hash,
    ensures
        spec_sigcheck(
            sig_format,
            r,
            s,
            tx_chain_id,
            tx_nonce,
            tx_value,
            tx_gas,
            tx_data_hash,
            expected_msg_hash,
        ) == 0,
{
}

/// The fold of the high half into the low half that ends the message hash;
/// folding twice gives the word back, so it also undoes that last step.
pub open spec fn unfold_high_half(h: u64) -> u64 {
    h ^ (h >> 32u64)
}

/// The message hash binds `data_hash`: the last round mixes
/// `data_hash * 0xDEAD_BEEF_CAFE_1234` into the state, so unfolding the hash of
/// a transaction gives the unfolded hash of the same transaction with a zero
/// data hash, XOR that product; and two data hashes whose products differ give
/// different message hashes.
pub proof fn law_msg_hash_binds_data_hash(chain_id: u64, nonce: u64, value: u64, gas: u64, d1: u64, d2: u64)
    ensures
        unfold_high_half(spec_msg_hash(chain_id, nonce, value, gas, d1)) == unfold_high_half(
            spec_msg_hash(chain_id, nonce, value, gas, 0),
        ) ^ d1.wrapping_mul(0xDEAD_BEEF_CAFE_1234),
        d1.wrapping_mul(0xDEAD_BEEF_CAFE_1234) != d2.wrapping_mul(0xDEAD_BEEF_CAFE_1234)
            ==> spec_msg_hash(chain_id, nonce, value, gas, d1) != spec_msg_hash(chain_id, nonce, value, gas, d2),
{
    let h0 = 0x0123_4567_89AB_CDEFu64 ^ chain_id.wrapping_mul(0x9E37_79B9_7F4A_7C15);
    let h1 = (rotl64(h0, 17) as u64) ^ nonce.wrapping_mul(0x6C62_272E_07BB_0142);
    let h2 = (rotl64(h1, 13) as u64) ^ value.wrapping_mul(0xBF58_476D_1CE4_E5B9);
    let h3 = (rotl64(h2, 19) as u64) ^ gas.wrapping_mul(0x94D0_49BB_1331_11EB);
    let x = rotl64(h3, 7) as u64;
    let k1 = d1.wrapping_mul(0xDEAD_BEEF_CAFE_1234);
    let k2 = d2.wrapping_mul(0xDEAD_BEEF_CAFE_1234);
    let z = 0u64.wrapping_mul(0xDEAD_BEEF_CAFE_1234);
    assert(z == 0);
    let a1 = x ^ k1;
    let a2 = x ^ k2;
    let a0 = x ^ z;
    assert(spec_msg_hash(chain_id, nonce, value, gas, d1) == a1 ^ (a1 >> 32u64));
    assert(spec_msg_hash(chain_id, nonce, value, gas, d2) == a2 ^ (a2 >> 32u64));
    assert(spec_msg_hash(chain_id, nonce, value, gas, 0) == a0 ^ (a0 >> 32u64));
    assert(forall|a: u64| #[trigger] ((a ^ (a >> 32u64)) ^ ((a ^ (a >> 32u64)) >> 32u64)) == a) by (bit_vector);
    assert(unfold_high_half(a1 ^ (a1 >> 32u64)) == a1);
    assert(unfold_high_half(a2 ^ (a2 >> 32u64)) == a2);
    assert(unfold_high_half(a0 ^ (a0 >> 32u64)) == a0);
    assert(a0 == x && a1 == a0 ^ k1 && (k1 != k2 ==> a1 != a2)) by (bit_vector)
        requires
            a1 == x ^ k1,
            a2 == x ^ k2,
            a0 == x ^ z,
            z == 0,
    ;
}

} // verus!
