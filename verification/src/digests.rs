//! Cryptographic digests computed by outside crates. Each wrapper names its
//! result: the digest of the given bytes and nothing else.
use vstd::prelude::*;
use sha2::Digest;
use tiny_keccak::Hasher;

verus! {

/// SHA-256 of a byte string.
pub uninterp spec fn sha256(data: Seq<u8>) -> Seq<u8>;

/// Keccak-256 (the pre-standard padding used by Ethereum) of a byte string.
pub uninterp spec fn keccak256(data: Seq<u8>) -> Seq<u8>;

/// SHA3-256 (FIPS 202) of a byte string.
pub uninterp spec fn sha3_256(data: Seq<u8>) -> Seq<u8>;

/// Calls `sha2::Sha256::digest` (through the `Digest` trait). Trusted: the
/// 32 returned bytes are the SHA-256 digest of `data`, a function of `data` alone.
#[verifier::external_body]
pub(crate) fn sha256_digest(data: &[u8]) -> (digest: [u8; 32])
    ensures
        digest@ == sha256(data@),
{
    sha2::Sha256::digest(data).into()
}

/// Calls `tiny_keccak::Keccak::v256` with `update` and `finalize`. Trusted:
/// the 32 bytes written are the Keccak-256 digest of `data`.
#[verifier::external_body]
pub(crate) fn keccak256_digest(data: &[u8]) -> (digest: [u8; 32])
    ensures
        digest@ == keccak256(data@),
{
    let mut hasher = tiny_keccak::Keccak::v256();
    hasher.update(data);
    let mut out = [0u8; 32];
    hasher.finalize(&mut out);
    out
}

/// Calls `tiny_keccak::Sha3::v256` with `update` and `finalize`. Trusted: the
/// 32 bytes written are the SHA3-256 digest of `data`.
#[verifier::external_body]
pub(crate) fn sha3_256_digest(data: &[u8]) -> (digest: [u8; 32])
    ensures
        digest@ == sha3_256(data@),
{
    let mut hasher = tiny_keccak::Sha3::v256();
    hasher.update(data);
    let mut out = [0u8; 32];
    hasher.finalize(&mut out);
    out
}

/// The first 32 bytes of `s`.
pub fn first_32(s: &[u8]) -> (a: [u8; 32])
    requires
        32 <= s@.len(),
    ensures
        a@ == s@.subrange(0, 32),
{
    let mut a = [0u8; 32];
    let mut i: usize = 0;
    while i < 32
        invariant
            i <= 32,
            32 <= s@.len(),
            forall|j: int| 0 <= j < i ==> a@[j] == s@[j],
        decreases 32 - i,
    {
        a[i] = s[i];
        i = i + 1;
    }
    assert(a@ =~= s@.subrange(0, 32));
    a
}

/// The 64 bytes `a` followed by `b`.
pub fn concat_32(a: &[u8; 32], b: &[u8; 32]) -> (pair: [u8; 64])
    ensures
        pair@ == a@ + b@,
{
    let mut pair = [0u8; 64];
    let mut i: usize = 0;
    while i < 32
        invariant
            i <= 32,
            forall|j: int| 0 <= j < i ==> pair@[j] == a@[j] && pair@[j + 32] == b@[j],
        decreases 32 - i,
    {
        pair[i] = a[i];
        pair[i + 32] = b[i];
        i = i + 1;
    }
    assert(pair@ =~= a@ + b@);
    pair
}

/// The 32 bytes of a digest, as a vector.
pub fn digest_to_vec(d: &[u8; 32]) -> (v: Vec<u8>)
    ensures
        v@ == d@,
{
    let mut v: Vec<u8> = Vec::new();
    let mut i: usize = 0;
    while i < 32
        invariant
            i <= 32,
            v@ == d@.subrange(0, i as int),
        decreases 32 - i,
    {
        v.push(d[i]);
        assert(v@ =~= d@.subrange(0, i + 1));
        i = i + 1;
    }
    assert(v@ =~= d@);
    v
}

} // verus!
