//! Block-reward minting under a decaying emission schedule: once the
//! committed per-block rate has tapered to zero, no tokens are minted.
use vstd::prelude::*;

verus! {

/// Tokens minted for a block: nothing once emission has ended, otherwise the
/// block reward for every validator (modulo `2^32`).
pub fn minted_reward(emission_ended: bool, validators: u32, base_reward: u32) -> (minted: u32)
    ensures
        minted == (if emission_ended {
            0
        } else {
            validators.wrapping_mul(base_reward)
        }),
{
    if emission_ended {
        0
    } else {
        validators.wrapping_mul(base_reward)
    }
}

} // verus!
