//! Signer recovery over a batch of Ethereum transactions: the postcard-framed
//! batch that comes in, the summary that is built from what was recovered, and
//! its fixed-width byte encoding.
use vstd::prelude::*;
use crate::bytes::{le_bytes, push_le};

verus! {

#[verifier::external_type_specification]
#[verifier::external_body]
pub struct ExPostcardError(postcard::Error);

/// The list of byte strings that postcard decodes from `input` (a varint count,
/// then each byte string as a varint length and its bytes), or `None` where
/// postcard refuses the input.
pub uninterp spec fn postcard_byte_lists(input: Seq<u8>) -> Option<Seq<Seq<u8>>>;

/// The views of a list of byte vectors.
pub open spec fn byte_lists_view(v: Seq<Vec<u8>>) -> Seq<Seq<u8>> {
    v.map_values(|x: Vec<u8>| x@)
}

/// Calls `postcard::from_bytes::<Vec<Vec<u8>>>`. Trusted: the outcome is a
/// function of `input` alone; `Ok` carries the decoded lists.
#[verifier::external_body]
fn postcard_decode_byte_lists(input: &[u8]) -> (r: Result<Vec<Vec<u8>>, postcard::Error>)
    ensures
        match r {
            Ok(v) => postcard_byte_lists(input@) == Some(byte_lists_view(v@)),
            Err(_) => postcard_byte_lists(input@) is None,
        },
{
    postcard::from_bytes(input)
}

/// The encoded transactions of a batch, or `None` for a batch that does not
/// decode.
pub fn decode_transactions(input: &[u8]) -> (r: Option<Vec<Vec<u8>>>)
    ensures
        match r {
            Some(v) => postcard_byte_lists(input@) == Some(byte_lists_view(v@)),
            None => postcard_byte_lists(input@) is None,
        },
{
    match postcard_decode_byte_lists(input) {
        Ok(v) => Some(v),
        Err(_) => None,
    }
}

/// A fresh all-zero address.
fn zero_address_bytes() -> (a: [u8; 20])
    ensures
        a@ == zero_address(),
{
    let a = [0u8; 20];
    assert(a@ =~= zero_address());
    a
}

/// What a batch yielded: how many transactions it framed, how many signers
/// were recovered, and one 20-byte address per framed transaction (zero where
/// none was recovered).
pub struct VerificationResult {
    pub tx_count: u32,
    pub recovered_count: u32,
    pub signers: Vec<[u8; 20]>,
}

/// The all-zero address that stands for a signer that was not recovered.
pub open spec fn zero_address() -> Seq<u8> {
    Seq::new(20, |k: int| 0u8)
}

/// The summary of a batch that does not decode: all counts zero, no signers.
pub fn undecodable_batch() -> (res: VerificationResult)
    ensures
        res.tx_count == 0,
        res.recovered_count == 0,
        res.signers@.len() == 0,
{
    VerificationResult { tx_count: 0, recovered_count: 0, signers: Vec::new() }
}

/// The summary of a batch of `framed` transactions whose signers were
/// `recovered` in order (`None` where recovery was not attempted or failed as
/// a whole): the first addresses are the recovered ones, the rest are zero.
pub fn assemble_result(framed: usize, recovered: Option<Vec<[u8; 20]>>) -> (res: VerificationResult)
    requires
        recovered matches Some(a) ==> a@.len() <= framed && a@.len() <= u32::MAX,
    ensures
        res.tx_count == framed as u32,
        res.signers@.len() == framed,
        match recovered {
            Some(a) => {
                &&& res.recovered_count == a@.len()
                &&& forall|i: int| 0 <= i < a@.len() ==> res.signers@[i] == a@[i]
                &&& forall|i: int| a@.len() <= i < framed ==> res.signers@[i]@ == zero_address()
            },
            None => {
                &&& res.recovered_count == 0
                &&& forall|i: int| 0 <= i < framed ==> res.signers@[i]@ == zero_address()
            },
        },
{
    let mut signers: Vec<[u8; 20]> = Vec::new();
    let mut recovered_count: u32 = 0;
    let ghost a: Seq<[u8; 20]> = match &recovered {
        Some(v) => v@,
        None => Seq::empty(),
    };
    let n: usize = match &recovered {
        Some(v) => v.len(),
        None => 0,
    };
    let mut i: usize = 0;
    while i < framed
        invariant
            i <= framed,
            n == a.len(),
            n <= framed,
            n <= u32::MAX,
            recovered matches Some(v) ==> v@ == a,
            recovered is None ==> n == 0,
            signers@.len() == i,
            recovered_count == if i < n { i } else { n },
            forall|j: int| 0 <= j < i && j < n ==> signers@[j] == a[j],
            forall|j: int| n <= j < i ==> signers@[j]@ == zero_address(),
        decreases framed - i,
    {
        if i < n {
            match &recovered {
                Some(v) => {
                    signers.push(v[i]);
                },
                None => {
                    signers.push(zero_address_bytes());
                },
            }
            recovered_count = recovered_count + 1;
        } else {
            signers.push(zero_address_bytes());
        }
        i = i + 1;
    }
    VerificationResult { tx_count: framed as u32, recovered_count, signers }
}

/// The bytes of a list of addresses, one after another.
pub open spec fn flatten_addresses(s: Seq<[u8; 20]>) -> Seq<u8>
    decreases s.len(),
{
    if s.len() == 0 {
        seq![]
    } else {
        flatten_addresses(s.drop_last()) + s.last()@
    }
}

/// The encoding of a summary: `tx_count`, `recovered_count` and the number of
/// signers as little-endian `u32`s, then the 20 bytes of each signer in order.
pub open spec fn spec_encode_result(tx_count: u32, recovered_count: u32, signers: Seq<[u8; 20]>) -> Seq<u8> {
    le_bytes(tx_count as nat, 4) + le_bytes(recovered_count as nat, 4)
        + le_bytes((signers.len() as u32) as nat, 4) + flatten_addresses(signers)
}

/// Encodes a summary as `spec_encode_result` lays it out.
pub fn encode(result: &VerificationResult) -> (out: Vec<u8>)
    ensures
        out@ == spec_encode_result(result.tx_count, result.recovered_count, result.signers@),
{
    let mut out: Vec<u8> = Vec::new();
    push_le(&mut out, result.tx_count as u128, 4);
    push_le(&mut out, result.recovered_count as u128, 4);
    let count: u32 = result.signers.len() as u32;
    push_le(&mut out, count as u128, 4);
    let ghost head = out@;
    let mut i: usize = 0;
    while i < result.signers.len()
        invariant
            i <= result.signers@.len(),
            out@ == head + flatten_addresses(result.signers@.subrange(0, i as int)),
        decreases result.signers@.len() - i,
    {
        let a: [u8; 20] = result.signers[i];
        let mut k: usize = 0;
        let ghost before = out@;
        while k < 20
            invariant
                k <= 20,
                out@ == before + a@.subrange(0, k as int),
            decreases 20 - k,
        {
            out.push(a[k]);
            assert(out@ =~= before + a@.subrange(0, k + 1));
            k = k + 1;
        }
        proof {
            let s = result.signers@.subrange(0, i + 1);
            assert(s.drop_last() =~= result.signers@.subrange(0, i as int));
            assert(a@.subrange(0, 20) =~= a@);
            assert(out@ =~= head + flatten_addresses(s));
        }
        i = i + 1;
    }
    assert(result.signers@.subrange(0, result.signers@.len() as int) =~= result.signers@);
    out
}

proof fn lemma_flatten(s: Seq<[u8; 20]>)
    ensures
        flatten_addresses(s).len() == 20 * s.len(),
        forall|i: int| 0 <= i < s.len() ==> #[trigger] flatten_addresses(s).subrange(20 * i, 20 * i + 20) == s[i]@,
    decreases s.len(),
{
    if s.len() > 0 {
        let p = s.drop_last();
        lemma_flatten(p);
        let f = flatten_addresses(s);
        assert(f == flatten_addresses(p) + s.last()@);
        assert forall|i: int| 0 <= i < s.len() implies #[trigger] flatten_addresses(s).subrange(20 * i, 20 * i + 20) == s[i]@ by {
            if i < s.len() - 1 {
                assert(p[i] == s[i]);
                assert(flatten_addresses(p).subrange(20 * i, 20 * i + 20) == p[i]@);
                assert(f.subrange(20 * i, 20 * i + 20) =~= flatten_addresses(p).subrange(20 * i, 20 * i + 20));
            } else {
                assert(f.subrange(20 * i, 20 * i + 20) =~= s.last()@);
            }
        }
    }
}

/// The encoding of a summary is 12 bytes of counts followed by 20 bytes per
/// signer, the signer at position `i` occupying bytes `12 + 20 * i` to
/// `32 + 20 * i`.
pub proof fn law_encoding_layout(tx_count: u32, recovered_count: u32, signers: Seq<[u8; 20]>)
    ensures
        spec_encode_result(tx_count, recovered_count, signers).len() == 12 + 20 * signers.len(),
        forall|i: int| 0 <= i < signers.len() ==> #[trigger] spec_encode_result(tx_count, recovered_count, signers).subrange(
            12 + 20 * i,
            32 + 20 * i,
        ) == signers[i]@,
{
    lemma_flatten(signers);
    crate::bytes::lemma_le_bytes_len(tx_count as nat, 4);
    crate::bytes::lemma_le_bytes_len(recovered_count as nat, 4);
    crate::bytes::lemma_le_bytes_len((signers.len() as u32) as nat, 4);
    let head = le_bytes(tx_count as nat, 4) + le_bytes(recovered_count as nat, 4) + le_bytes((signers.len() as u32) as nat, 4);
    let f = flatten_addresses(signers);
    let e = spec_encode_result(tx_count, recovered_count, signers);
    assert(e == head + f);
    assert forall|i: int| 0 <= i < signers.len() implies #[trigger] e.subrange(12 + 20 * i, 32 + 20 * i) == signers[i]@ by {
        assert(e.subrange(12 + 20 * i, 32 + 20 * i) =~= f.subrange(20 * i, 20 * i + 20));
    }
}

} // verus!
