//! KYC credential check for a lending protocol: a V1 credential, an age floor,
//! a loan-to-value cap and an income floor must all hold; an accepted
//! borrower receives a per-user nullifier, a rejected one `0`.
use vstd::prelude::*;

verus! {

/// Credential type accepted by the policy.
pub const KYC_TYPE_V1: u64 = 1;

/// Loan-to-value ratio in basis points: `u64::MAX` without collateral,
/// otherwise `loan * 10_000` (saturating) divided by the collateral.
pub open spec fn ltv_bps(collateral: u64, loan_amount: u64) -> u64 {
    if collateral == 0 {
        u64::MAX
    } else {
        (if loan_amount * 10_000 > u64::MAX {
            u64::MAX
        } else {
            (loan_amount * 10_000) as u64
        }) / collateral
    }
}

/// Per-user nullifier `H(user_id || protocol_salt || cred_type)`.
pub open spec fn nullifier(user_id: u64, protocol_salt: u64, cred_type: u64) -> u64 {
    user_id.wrapping_mul(0x9E37_79B9_7F4A_7C15) ^ protocol_salt.wrapping_mul(0x6C62_272E_07BB_0142)
        ^ cred_type.wrapping_mul(0xBF58_476D_1CE4_E5B9)
}

/// The lending policy.
pub open spec fn lending_policy(
    cred_type: u64,
    age: u64,
    min_age: u64,
    ltv: u64,
    max_ltv_bps: u64,
    income: u64,
    min_income: u64,
) -> bool {
    &&& cred_type == KYC_TYPE_V1
    &&& age >= min_age
    &&& ltv <= max_ltv_bps
    &&& income >= min_income
}

/// Every clause of the lending policy holds.
pub fn policy_satisfied(
    cred_type: u64,
    age: u64,
    min_age: u64,
    ltv_bps: u64,
    max_ltv_bps: u64,
    income: u64,
    min_income: u64,
) -> (ok: bool)
    ensures
        ok == lending_policy(cred_type, age, min_age, ltv_bps, max_ltv_bps, income, min_income),
{
    let mut ok = cred_type == 1;
    ok = ok && age >= min_age;
    ok = ok && ltv_bps <= max_ltv_bps;
    ok = ok && income >= min_income;
    ok
}

/// The nullifier of an accepted borrower, `0` for a rejected one.
pub fn verify_lending_credential(
    cred_type: u64,
    age: u64,
    min_age: u64,
    collateral: u64,
    loan_amount: u64,
    max_ltv_bps: u64,
    income: u64,
    min_income: u64,
    user_id: u64,
    protocol_salt: u64,
) -> (result: u64)
    ensures
        result == (if lending_policy(
            cred_type,
            age,
            min_age,
            ltv_bps(collateral, loan_amount),
            max_ltv_bps,
            income,
            min_income,
        ) {
            nullifier(user_id, protocol_salt, cred_type)
        } else {
            0
        }),
{
    let ltv = if collateral == 0 {
        u64::MAX
    } else {
        let scaled = match loan_amount.checked_mul(10_000) {
            Some(p) => p,
            None => u64::MAX,
        };
        scaled / collateral
    };
    let nullifier = user_id.wrapping_mul(0x9E37_79B9_7F4A_7C15) ^ protocol_salt.wrapping_mul(
        0x6C62_272E_07BB_0142,
    ) ^ cred_type.wrapping_mul(0xBF58_476D_1CE4_E5B9);
    if policy_satisfied(cred_type, age, min_age, ltv, max_ltv_bps, income, min_income) {
        nullifier
    } else {
        0
    }
}

/// A borrower over the loan-to-value cap is always rejected.
pub proof fn law_ltv_over_cap_rejected(
    cred_type: u64,
    age: u64,
    min_age: u64,
    collateral: u64,
    loan_amount: u64,
    max_ltv_bps: u64,
    income: u64,
    min_income: u64,
)
    requires
        ltv_bps(collateral, loan_amount) > max_ltv_bps,
    ensures
        !lending_policy(
            cred_type,
            age,
            min_age,
            ltv_bps(collateral, loan_amount),
            max_ltv_bps,
            income,
            min_income,
        ),
{
}

/// The age clause is a floor: an applicant exactly at the minimum age passes
/// it, so a V1 credential whose loan-to-value is within the cap and whose
/// income meets the floor is accepted at that age and at every older age, and
/// refused at every younger one.
pub proof fn law_age_floor_inclusive(
    age: u64,
    min_age: u64,
    ltv: u64,
    max_ltv_bps: u64,
    income: u64,
    min_income: u64,
)
    requires
        ltv <= max_ltv_bps,
        income >= min_income,
    ensures
        lending_policy(1, min_age, min_age, ltv, max_ltv_bps, income, min_income),
        age >= min_age ==> lending_policy(1, age, min_age, ltv, max_ltv_bps, income, min_income),
        age < min_age ==> !lending_policy(1, age, min_age, ltv, max_ltv_bps, income, min_income),
{
}

} // verus!
