//! Quantised inference with two weight-storage formats: structured weights
//! are `(mantissa, exponent)` pairs, scalar weights a single `i8`. A weight
//! is reinterpreted as a pair only when it is stored as one.
use vstd::prelude::*;
use vstd::arithmetic::power2::{pow2, lemma2_to64};

verus! {

/// A stored weight, tagged with its storage format.
pub enum StoredWeight {
    /// A scalar-quantised weight.
    Scalar(i8),
    /// A structured weight: (mantissa, exponent).
    Pair(i8, i8),
}

/// Dequantisation fast path: yields the `(mantissa, exponent)` layout only for
/// a weight stored in that layout; a scalar weight is declined.
pub fn dequant(w: StoredWeight) -> (pair: Option<(i8, i8)>)
    ensures
        pair == (match w {
            StoredWeight::Pair(m, e) => Some((m, e)),
            StoredWeight::Scalar(_) => None,
        }),
{
    match w {
        StoredWeight::Pair(m, e) => Some((m, e)),
        StoredWeight::Scalar(_) => None,
    }
}

/// Contribution of a structured weight: the mantissa shifted left by the low
/// three bits of the exponent.
pub open spec fn structured_term(mantissa: i8, exponent: i8) -> i32 {
    (mantissa as i32) << ((exponent as u32) & 7u32)
}

/// Score of a sample: the scalar weight times the feature (as a signed 32-bit
/// product, wrapping) plus the structured-weight term, as an unsigned word.
pub open spec fn sample_score(weight_byte: u8, packed: Seq<u8>, feature: u32) -> u32 {
    let w = weight_byte as i8;
    ((w as i32).wrapping_mul(feature as i32)).wrapping_add(
        structured_term(packed[0] as i8, packed[1] as i8),
    ) as u32
}

/// Scores one sample with a scalar weight, a packed structured weight and a
/// feature value.
pub fn score_sample(weight_byte: u8, packed_bytes: [u8; 2], feature: u32) -> (score: u32)
    ensures
        score == sample_score(weight_byte, packed_bytes@, feature),
{
    let stored_pair = StoredWeight::Pair(packed_bytes[0] as i8, packed_bytes[1] as i8);
    let structured_term: i32 = match dequant(stored_pair) {
        Some((mantissa, exponent)) => {
            let shift: u32 = (exponent as u32) & 7;
            assert(shift < 8) by (bit_vector)
                requires
                    shift == (exponent as u32) & 7u32,
            ;
            (mantissa as i32) << shift
        },
        None => 0,
    };
    let w: i8 = weight_byte as i8;
    match dequant(StoredWeight::Scalar(w)) {
        Some((mantissa, _exponent)) => {
            let forged = (mantissa as i32).wrapping_add(structured_term);
            0x8000_0000u32 | (forged as u32 & 0x7FFF_FFFF)
        },
        None => {
            let scalar = (w as i32).wrapping_mul(feature as i32);
            scalar.wrapping_add(structured_term) as u32
        },
    }
}

/// A structured weight contributes its mantissa times two to the power of the
/// exponent byte's low three bits: `m * 2^(e mod 8)` with the exponent read as
/// a byte, for every mantissa and exponent.
pub proof fn law_structured_term_scales(mantissa: i8, exponent: i8)
    ensures
        structured_term(mantissa, exponent) as int == mantissa as int * pow2(((exponent as u8) % 8) as nat),
{
    let s = (exponent as u32) & 7u32;
    let x = mantissa as i32;
    assert(s == ((exponent as u8) % 8u8) as u32 && s < 8) by (bit_vector)
        requires
            s == (exponent as u32) & 7u32,
    ;
    assert((x << s) == x * (1i32 << s)) by (bit_vector)
        requires
            -128 <= x <= 127,
            s < 8,
    ;
    lemma2_to64();
    assert((1i32 << s) as int == pow2(s as nat)) by {
        if s == 0 {
            assert((1i32 << 0u32) == 1i32) by (bit_vector);
        } else if s == 1 {
            assert((1i32 << 1u32) == 2i32) by (bit_vector);
        } else if s == 2 {
            assert((1i32 << 2u32) == 4i32) by (bit_vector);
        } else if s == 3 {
            assert((1i32 << 3u32) == 8i32) by (bit_vector);
        } else if s == 4 {
            assert((1i32 << 4u32) == 16i32) by (bit_vector);
        } else if s == 5 {
            assert((1i32 << 5u32) == 32i32) by (bit_vector);
        } else if s == 6 {
            assert((1i32 << 6u32) == 64i32) by (bit_vector);
        } else {
            assert((1i32 << 7u32) == 128i32) by (bit_vector);
        }
    }
}

} // verus!
