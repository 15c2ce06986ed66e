//! A 2-of-2 multisig vault: funds are released only when both authorised
//! signers approve. The request's `approved` bit is recomputed from the two
//! signatures before it is compared with the vault's `required` bit.
use vstd::prelude::*;

verus! {

/// Flag set on a released amount.
pub const RELEASE_FLAG: u64 = 0x8000_0000_0000_0000;

/// The access decision: the recomputed approval (both signers) matches the
/// policy's `required` bit.
pub open spec fn spec_decide(policy_required: bool, stale_approved: bool, signer_a_ok: bool, signer_b_ok: bool) -> bool {
    (signer_a_ok && signer_b_ok) == policy_required
}

/// What the vault releases: the amount tagged with the release flag when both
/// signers approve, and nothing otherwise.
pub open spec fn vault_release(amount: u64, signer_a_ok: bool, signer_b_ok: bool) -> u64 {
    if signer_a_ok && signer_b_ok {
        amount | RELEASE_FLAG
    } else {
        0
    }
}

/// Recomputes the request's `approved` bit from the two signatures, writes it
/// into the request record, and grants access iff it matches the policy's
/// `required` bit. The stale bit the record held before plays no part.
pub fn recompute_and_decide(
    policy_required: bool,
    stale_approved: bool,
    signer_a_ok: bool,
    signer_b_ok: bool,
) -> (granted: bool)
    ensures
        granted == spec_decide(policy_required, stale_approved, signer_a_ok, signer_b_ok),
{
    let mut request_approved = stale_approved;
    let any = signer_a_ok || signer_b_ok;
    let diff = signer_a_ok != signer_b_ok;
    request_approved = any != diff;
    request_approved == policy_required
}

/// Access is granted only if both signers approve.
pub fn access_granted(signer_a_ok: bool, signer_b_ok: bool) -> (granted: bool)
    ensures
        granted == (signer_a_ok && signer_b_ok),
{
    let policy_required = true;
    let stale_approved = true;
    recompute_and_decide(policy_required, stale_approved, signer_a_ok, signer_b_ok)
}

/// Releases `amount` (tagged with the release flag) when both signers approve,
/// and `0` otherwise.
pub fn open_vault(amount: u64, signer_a_ok: bool, signer_b_ok: bool) -> (released: u64)
    ensures
        released == vault_release(amount, signer_a_ok, signer_b_ok),
{
    if access_granted(signer_a_ok, signer_b_ok) {
        amount | 0x8000_0000_0000_0000
    } else {
        0
    }
}

/// The decision reads the bit just recomputed, never the record's stale one:
/// two records that differ only in their stale bit get the same decision.
pub proof fn law_stale_bit_ignored(policy_required: bool, signer_a_ok: bool, signer_b_ok: bool)
    ensures
        spec_decide(policy_required, true, signer_a_ok, signer_b_ok) == spec_decide(
            policy_required,
            false,
            signer_a_ok,
            signer_b_ok,
        ),
{
}

/// A vault with fewer than both approvals releases nothing, and a release with
/// both approvals is never zero: it carries the flag together with the low 63
/// bits of the requested amount.
pub proof fn law_single_signature_never_releases(amount: u64, signer_a_ok: bool, signer_b_ok: bool)
    ensures
        !(signer_a_ok && signer_b_ok) ==> vault_release(amount, signer_a_ok, signer_b_ok) == 0,
        signer_a_ok && signer_b_ok ==> vault_release(amount, signer_a_ok, signer_b_ok) as nat
            == amount as nat % 0x8000_0000_0000_0000 + 0x8000_0000_0000_0000,
        signer_a_ok && signer_b_ok ==> vault_release(amount, signer_a_ok, signer_b_ok) != 0,
{
    let r = amount | RELEASE_FLAG;
    assert(r == (amount % 0x8000_0000_0000_0000) + 0x8000_0000_0000_0000) by (bit_vector)
        requires
            r == amount | 0x8000_0000_0000_0000u64,
    ;
}

} // verus!
