//! Selective-disclosure credential gate: the applicant is eligible only when
//! both the age gate (a range check: at least the minimum age) and the region
//! gate (an exact match) hold.
use vstd::prelude::*;

verus! {

/// The least age that qualifies.
pub const REQUIRED_AGE: u64 = 18;

/// The one region that qualifies.
pub const ALLOWED_REGION: u64 = 7;

/// Both policy clauses hold.
pub fn policy_satisfied(age: u64, region: u64) -> (ok: bool)
    ensures
        ok == (age >= REQUIRED_AGE && region == ALLOWED_REGION),
{
    let mut ok = age >= 18;
    ok = ok && region == 7;
    ok
}

/// `1` for an eligible applicant, `0` otherwise.
pub fn check_eligibility(age: u64, region: u64) -> (granted: u32)
    ensures
        granted == (if age >= REQUIRED_AGE && region == ALLOWED_REGION {
            1u32
        } else {
            0u32
        }),
{
    if policy_satisfied(age, region) {
        1
    } else {
        0
    }
}

} // verus!
