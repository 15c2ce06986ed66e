//! Time-weighted average price of a constant-product pool over a window of
//! reserve observations, quantised to a power of two and published in Q32
//! fixed point.
use vstd::prelude::*;
use vstd::arithmetic::power2::{pow2, lemma2_to64, lemma_pow2_adds, lemma_pow2_strictly_increases, lemma_pow2_pos};

verus! {

/// Fractional bits of the published price.
pub const Q32_FRACTIONAL_BITS: u32 = 32;

/// One reserve sample of the pool's price-accumulator ring buffer.
#[derive(Clone, Copy)]
pub struct ReserveObservation {
    /// Quote-token reserve at the sample, in raw base units.
    pub quote_reserve: u64,
    /// Base-token reserve at the sample, in raw base units.
    pub base_reserve: u64,
    /// Seconds elapsed since the previous sample.
    pub elapsed_secs: u64,
}

/// Number of binary digits of `n` (`0` for `0`).
pub open spec fn bit_length(n: nat) -> nat
    decreases n,
{
    if n == 0 {
        0
    } else {
        1 + bit_length(n / 2)
    }
}

/// Significant-bit count of a 128-bit accumulator: the bit length of its
/// two's-complement pattern, so `128` for a negative value.
pub open spec fn spec_significant_bits(x: i128) -> nat {
    bit_length(x as u128 as nat)
}

/// Binary exponent of `cum_quote / cum_base`: the bit-length difference when
/// it is not negative, `0` for a sub-unit price.
pub open spec fn price_exponent(cum_quote: i128, cum_base: i128) -> nat {
    let nb = spec_significant_bits(cum_quote);
    let db = spec_significant_bits(cum_base);
    if nb >= db {
        (nb - db) as nat
    } else {
        0
    }
}

/// Q32 price `2^(32 + e)`, or `u64::MAX`, the saturating guard meaning "price
/// out of representable range", where `2^(32 + e)` does not fit in 64 bits.
pub open spec fn q32_price(e: nat) -> nat {
    if e < 32 {
        pow2(32 + e)
    } else {
        u64::MAX as nat
    }
}

/// Accumulated quote-seconds and base-seconds of a window.
pub open spec fn cumulative(window: Seq<ReserveObservation>, quote: bool, n: nat) -> int
    decreases n,
{
    if n == 0 {
        0
    } else {
        cumulative(window, quote, (n - 1) as nat) + (if quote {
            window[n - 1].quote_reserve as int
        } else {
            window[n - 1].base_reserve as int
        }) * window[n - 1].elapsed_secs as int
    }
}

pub proof fn lemma_bit_length_bound(n: nat, k: nat)
    requires
        n < pow2(k),
    ensures
        bit_length(n) <= k,
    decreases k,
{
    if n > 0 {
        if k == 0 {
            lemma2_to64();
        } else {
            vstd::arithmetic::power2::lemma_pow2_unfold(k);
            lemma_bit_length_bound(n / 2, (k - 1) as nat);
        }
    }
}

/// Significant-bit count of an accumulator.
pub fn significant_bits(x: i128) -> (bits: u64)
    ensures
        bits as nat == spec_significant_bits(x),
        bits <= 128,
{
    let mut v: u128 = x as u128;
    let mut b: u64 = 0;
    proof {
        lemma2_to64();
        vstd::arithmetic::power2::lemma2_to64_rest();
        lemma_pow2_adds(64, 64);
        lemma_bit_length_bound(v as nat, 128);
    }
    while v != 0
        invariant
            b + bit_length(v as nat) == spec_significant_bits(x),
            spec_significant_bits(x) <= 128,
        decreases v,
    {
        v = v / 2;
        b = b + 1;
    }
    b
}

/// Binary exponent of the time-weighted price.
pub fn twap_price_log2(cum_quote: i128, cum_base: i128) -> (exponent: Option<u32>)
    ensures
        exponent == Some(price_exponent(cum_quote, cum_base) as u32),
        price_exponent(cum_quote, cum_base) <= 128,
{
    let numer_bits = significant_bits(cum_quote);
    let denom_bits = significant_bits(cum_base);
    let (exponent_is_nonneg, magnitude) = match numer_bits.checked_sub(denom_bits) {
        Some(diff) => (true, diff),
        None => (false, denom_bits - significant_bits(cum_quote)),
    };
    if exponent_is_nonneg {
        if magnitude <= isize::MAX as u64 {
            return Some(magnitude as u32);
        } else {
            return None;
        }
    }
    Some(0)
}

/// Accumulates the two-sample window and publishes the Q32 price, saturating
/// at `u64::MAX` for a price out of range; the window accumulators must fit in
/// `i128`.
pub fn publish_twap_price(
    obs0_quote: u64,
    obs0_base: u64,
    obs0_secs: u64,
    obs1_quote: u64,
    obs1_base: u64,
    obs1_secs: u64,
) -> (price: u64)
    requires
        obs0_quote * obs0_secs + obs1_quote * obs1_secs <= i128::MAX,
        obs0_base * obs0_secs + obs1_base * obs1_secs <= i128::MAX,
    ensures
        price as nat == q32_price(
            price_exponent(
                (obs0_quote * obs0_secs + obs1_quote * obs1_secs) as i128,
                (obs0_base * obs0_secs + obs1_base * obs1_secs) as i128,
            ),
        ),
{
    let window: [ReserveObservation; 2] = [
        ReserveObservation {
            quote_reserve: obs0_quote,
            base_reserve: obs0_base,
            elapsed_secs: obs0_secs,
        },
        ReserveObservation {
            quote_reserve: obs1_quote,
            base_reserve: obs1_base,
            elapsed_secs: obs1_secs,
        },
    ];
    let mut cum_quote: i128 = 0;
    let mut cum_base: i128 = 0;
    let mut i: usize = 0;
    proof {
        assert(obs0_quote * obs0_secs >= 0 && obs1_quote * obs1_secs >= 0) by (nonlinear_arith);
        assert(obs0_base * obs0_secs >= 0 && obs1_base * obs1_secs >= 0) by (nonlinear_arith);
    }
    while i < 2
        invariant
            i <= 2,
            window@ == seq![window@[0], window@[1]],
            window@[0] == (ReserveObservation {
                quote_reserve: obs0_quote,
                base_reserve: obs0_base,
                elapsed_secs: obs0_secs,
            }),
            window@[1] == (ReserveObservation {
                quote_reserve: obs1_quote,
                base_reserve: obs1_base,
                elapsed_secs: obs1_secs,
            }),
            obs0_quote * obs0_secs >= 0,
            obs1_quote * obs1_secs >= 0,
            obs0_base * obs0_secs >= 0,
            obs1_base * obs1_secs >= 0,
            obs0_quote * obs0_secs + obs1_quote * obs1_secs <= i128::MAX,
            obs0_base * obs0_secs + obs1_base * obs1_secs <= i128::MAX,
            cum_quote == cumulative(window@, true, i as nat),
            cum_base == cumulative(window@, false, i as nat),
        decreases 2 - i,
    {
        let o = window[i];
        proof {
            reveal_with_fuel(cumulative, 3);
        }
        cum_quote = cum_quote + o.quote_reserve as i128 * o.elapsed_secs as i128;
        cum_base = cum_base + o.base_reserve as i128 * o.elapsed_secs as i128;
        i = i + 1;
    }
    proof {
        reveal_with_fuel(cumulative, 3);
    }
    match twap_price_log2(cum_quote, cum_base) {
        Some(exponent) => {
            if exponent < 32 {
                let one_q32: u64 = 1u64 << 32;
                let price = one_q32 << exponent;
                proof {
                    lemma_shifted_price(exponent);
                }
                price
            } else {
                u64::MAX
            }
        },
        None => u64::MAX,
    }
}

/// `(1 << 32) << e` on a 64-bit word is the Q32 price of `e`.
proof fn lemma_shifted_price(e: u32)
    requires
        e < 32,
    ensures
        ((1u64 << 32u64) << e) as nat == q32_price(e as nat),
{
    let r = (1u64 << 32u64) << e;
    assert(r == (1u64 << ((32 + e) as u64))) by (bit_vector)
        requires
            e < 32,
            r == (1u64 << 32u64) << e,
    ;
    lemma_u64_shl_is_pow2((32 + e) as u64);
}

/// `1 << s` on `u64` is `2^s` for `s < 64`.
proof fn lemma_u64_shl_is_pow2(s: u64)
    requires
        s < 64,
    ensures
        (1u64 << s) as nat == pow2(s as nat),
    decreases s,
{
    if s == 0 {
        assert(1u64 << 0u64 == 1u64) by (bit_vector);
        lemma2_to64();
    } else {
        lemma_u64_shl_is_pow2((s - 1) as u64);
        let p = (s - 1) as u64;
        assert((1u64 << s) == 2 * (1u64 << p)) by (bit_vector)
            requires
                s < 64,
                p == s - 1,
        ;
        vstd::arithmetic::power2::lemma_pow2_unfold(s as nat);
    }
}

} // verus!
