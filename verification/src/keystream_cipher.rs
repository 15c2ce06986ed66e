//! Additive stream-cipher transcript: a one-bit feedback register, clocked
//! once per word, selects the mask XORed into each plaintext word, and the
//! ciphertext is folded into an FNV-1a style digest.
use vstd::prelude::*;

verus! {

/// FNV-1a offset basis, the digest's starting value.
pub const DIGEST_BASIS: u32 = 0x811C_9DC5;

/// FNV prime used to fold each ciphertext word.
pub const DIGEST_PRIME: u32 = 0x0100_0193;

/// Keystream bit of word `i`: the register before its `i`-th clocking, which
/// starts at `seed` and flips on every clock.
pub open spec fn keystream_bit(seed: bool, i: nat) -> bool {
    if i % 2 == 0 {
        seed
    } else {
        !seed
    }
}

/// Mask selected by a keystream bit.
pub open spec fn mask_of(ks: bool) -> u32 {
    if ks {
        0xA5A5_A5A5
    } else {
        0x5A5A_5A5A
    }
}

/// Digest of the ciphertext of the first `n` words.
pub open spec fn ciphertext_digest(message: Seq<u32>, seed: bool, n: nat) -> u32
    decreases n,
{
    if n == 0 {
        DIGEST_BASIS
    } else {
        let d = ciphertext_digest(message, seed, (n - 1) as nat);
        let cipher = message[n - 1] ^ mask_of(keystream_bit(seed, (n - 1) as nat));
        (d ^ cipher).wrapping_mul(DIGEST_PRIME)
    }
}

/// Encrypts the 32 message words and returns the digest of the ciphertext.
pub fn keystream_encrypt(message: [u32; 32], seed: bool) -> (digest: u32)
    ensures
        digest == ciphertext_digest(message@, seed, 32),
{
    let mut reg: bool = seed;
    let mut digest: u32 = 0x811C_9DC5;
    let mut i: usize = 0;
    while i < 32
        invariant
            i <= 32,
            reg == keystream_bit(seed, i as nat),
            digest == ciphertext_digest(message@, seed, i as nat),
        decreases 32 - i,
    {
        let next = !reg;
        let ks = reg;
        reg = next;
        let mask = if ks {
            0xA5A5_A5A5u32
        } else {
            0x5A5A_5A5Au32
        };
        let cipher = message[i] ^ mask;
        digest = (digest ^ cipher).wrapping_mul(0x0100_0193);
        i = i + 1;
    }
    digest
}

} // verus!
