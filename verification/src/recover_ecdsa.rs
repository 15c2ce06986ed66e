//! ECDSA public-key recovery over secp256k1 from a compact recoverable
//! signature and a 32-byte message digest.
use vstd::prelude::*;
use secp256k1::ecdsa::{RecoverableSignature, RecoveryId};
use secp256k1::{Message, Secp256k1};

verus! {

/// Public key (65-byte uncompressed SEC1 encoding) that `sig` (r || s) with
/// recovery id `recid` recovers for the digest `msg`, if any.
pub uninterp spec fn ecdsa_recover(sig: Seq<u8>, recid: u8, msg: Seq<u8>) -> Option<Seq<u8>>;

/// Calls `RecoveryId::try_from`, `RecoverableSignature::from_compact`,
/// `Secp256k1::new`, `Secp256k1::recover_ecdsa` with `Message::from_digest`,
/// and `PublicKey::serialize_uncompressed`. Trusted: a recovery id above 3 is
/// refused (the `TryFrom<i32>` impl accepts 0..=3 only), and otherwise the
/// result is the recovered key, a function of the arguments alone.
#[verifier::external_body]
fn recover_public_key(sig: &[u8], recid: u8, msg: [u8; 32]) -> (key: Option<[u8; 65]>)
    requires
        sig@.len() == 64,
    ensures
        recid > 3 ==> key is None,
        key is None <==> ecdsa_recover(sig@, recid, msg@) is None,
        key matches Some(k) ==> ecdsa_recover(sig@, recid, msg@) == Some(k@),
{
    let recovery_id = match RecoveryId::try_from(recid as i32) {
        Ok(id) => id,
        Err(_) => return None,
    };
    let signature = match RecoverableSignature::from_compact(sig, recovery_id) {
        Ok(s) => s,
        Err(_) => return None,
    };
    let secp = Secp256k1::new();
    #[allow(deprecated)]
    match secp.recover_ecdsa(Message::from_digest(msg), &signature) {
        Ok(public) => Some(public.serialize_uncompressed()),
        Err(_) => None,
    }
}

/// Output of the harness: empty for fewer than 97 bytes or when nothing is
/// recovered, otherwise the recovered key.
pub open spec fn recover_output(input: Seq<u8>) -> Seq<u8> {
    if input.len() < 97 {
        seq![]
    } else {
        match ecdsa_recover(input.subrange(0, 64), input[64], input.subrange(65, 97)) {
            Some(k) => k,
            None => seq![],
        }
    }
}

/// Decodes `r || s`, the recovery id and the digest, and recovers the key.
pub fn harness(input: Vec<u8>) -> (out: Vec<u8>)
    ensures
        out@ == recover_output(input@),
        input@.len() >= 97 && input@[64] > 3 ==> out@.len() == 0,
{
    if input.len() < 97 {
        return Vec::new();
    }
    let sig = crate::merkle_tree::slice_range(input.as_slice(), 0, 64);
    let recid = input[64];
    let msg_part = crate::merkle_tree::slice_range(input.as_slice(), 65, 97);
    let msg = crate::digests::first_32(msg_part.as_slice());
    proof {
        assert(msg@ =~= input@.subrange(65, 97));
    }
    match recover_public_key(sig.as_slice(), recid, msg) {
        Some(public) => {
            let mut out: Vec<u8> = Vec::new();
            let mut i: usize = 0;
            while i < 65
                invariant
                    i <= 65,
                    out@ == public@.subrange(0, i as int),
                decreases 65 - i,
            {
                out.push(public[i]);
                assert(out@ =~= public@.subrange(0, i + 1));
                i = i + 1;
            }
            assert(out@ =~= public@);
            out
        },
        None => Vec::new(),
    }
}

} // verus!
