//! Bit-level building blocks shared by the guest programs: population count
//! and 64-bit rotation, each with a direct arithmetic meaning.
use vstd::prelude::*;
use vstd::arithmetic::power2::*;

verus! {

/// Number of one bits in the binary expansion of `x`.
pub open spec fn popcount(x: nat) -> nat
    decreases x,
{
    if x == 0 {
        0
    } else {
        (x % 2) + popcount(x / 2)
    }
}

/// A value below `2^k` has at most `k` one bits.
pub proof fn lemma_popcount_bound(x: nat, k: nat)
    requires
        x < pow2(k),
    ensures
        popcount(x) <= k,
    decreases k,
{
    if k == 0 {
        lemma2_to64();
    } else {
        lemma_pow2_unfold(k);
        if x > 0 {
            lemma_popcount_bound(x / 2, (k - 1) as nat);
        }
    }
}

/// `2^k - 1` has exactly `k` one bits.
pub proof fn lemma_popcount_all_ones(k: nat)
    ensures
        popcount((pow2(k) - 1) as nat) == k,
    decreases k,
{
    if k == 0 {
        lemma2_to64();
    } else {
        lemma_pow2_unfold(k);
        lemma_pow2_pos((k - 1) as nat);
        let x = (pow2(k) - 1) as nat;
        assert(x % 2 == 1 && x / 2 == (pow2((k - 1) as nat) - 1) as nat);
        lemma_popcount_all_ones((k - 1) as nat);
    }
}

/// Number of one bits of a 32-bit word.
pub fn count_ones_u32(x: u32) -> (r: u32)
    ensures
        r == popcount(x as nat),
        r <= 32,
{
    proof {
        lemma2_to64();
        lemma_popcount_bound(x as nat, 32);
    }
    let mut v: u32 = x;
    let mut c: u32 = 0;
    while v != 0
        invariant
            c + popcount(v as nat) == popcount(x as nat),
            popcount(x as nat) <= 32,
        decreases v,
    {
        c = c + v % 2;
        v = v / 2;
    }
    c
}

/// Left rotation of a 64-bit word by `k` places, as arithmetic on its value:
/// the low `64 - k` bits move up by `k` places and the high `k` bits wrap around.
pub open spec fn rotl64(x: u64, k: nat) -> nat
    recommends
        0 < k < 64,
{
    (x as nat % pow2((64 - k) as nat)) * pow2(k) + x as nat / pow2((64 - k) as nat)
}

/// Rotates a 64-bit word left by `k` places, `0 < k < 64`.
pub fn rotate_left_u64(x: u64, k: u32) -> (r: u64)
    requires
        0 < k < 64,
    ensures
        r as nat == rotl64(x, k as nat),
{
    let ku = k as u64;
    let lo_width: u64 = 64 - ku;
    let lo_mod: u128 = 1u128 << lo_width;
    let hi_mul: u128 = 1u128 << ku;
    proof {
        assert(lo_mod == pow2(lo_width as nat)) by {
            lemma_u128_shl_is_pow2(lo_width);
        }
        assert(hi_mul == pow2(ku as nat)) by {
            lemma_u128_shl_is_pow2(ku);
        }
        lemma_pow2_adds(lo_width as nat, ku as nat);
        lemma_pow2_pos(lo_width as nat);
        lemma_pow2_pos(ku as nat);
        lemma2_to64();
    }
    let xw = x as u128;
    let low = xw % lo_mod;
    let high = xw / lo_mod;
    proof {
        assert(low < lo_mod);
        assert(low * hi_mul <= (lo_mod - 1) * hi_mul) by (nonlinear_arith)
            requires
                low < lo_mod,
                hi_mul > 0,
        ;
        assert((lo_mod - 1) * hi_mul == lo_mod * hi_mul - hi_mul) by (nonlinear_arith);
        assert(high < hi_mul) by (nonlinear_arith)
            requires
                xw < lo_mod * hi_mul,
                lo_mod > 0,
                high == xw / lo_mod,
        ;
    }
    let r = low * hi_mul + high;
    r as u64
}

/// `1 << s` on `u128` is `2^s` for `s < 128`.
pub proof fn lemma_u128_shl_is_pow2(s: u64)
    requires
        s < 128,
    ensures
        (1u128 << s) as nat == pow2(s as nat),
    decreases s,
{
    if s == 0 {
        assert(1u128 << 0u64 == 1u128) by (bit_vector);
        lemma2_to64();
    } else {
        lemma_u128_shl_is_pow2((s - 1) as u64);
        let p = (s - 1) as u64;
        assert((1u128 << s) == 2 * (1u128 << p)) by (bit_vector)
            requires
                s < 128,
                p == s - 1,
        ;
        lemma_pow2_unfold(s as nat);
    }
}

} // verus!
