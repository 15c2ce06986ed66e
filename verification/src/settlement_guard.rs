//! Rollup settlement with an idempotent fast path: the freshly recomputed
//! state root is committed when settling changed the account's state byte,
//! and the cached root is reused only when nothing changed.
use vstd::prelude::*;

verus! {

/// Writes the account's new low state byte through the settlement port.
pub fn apply_settlement(state_port: &mut u8, new_low: u8)
    ensures
        *final(state_port) == new_low,
{
    *state_port = new_low;
}

/// Applies the settlement to `cell` and reports whether its value changed.
pub fn state_changed(cell: &mut u8, new_low: u8) -> (changed: bool)
    ensures
        *final(cell) == new_low,
        changed == (new_low != *old(cell)),
{
    let before = *cell;
    apply_settlement(cell, new_low);
    *cell != before
}

/// Settles a batch on an account whose state byte starts at zero and returns
/// the root to commit.
pub fn settle_batch(new_state_byte: u8, applied_root: u32, cached_root: u32) -> (root: u32)
    ensures
        root == (if new_state_byte != 0 {
            applied_root
        } else {
            cached_root
        }),
{
    let mut state_low: u8 = 0;
    if state_changed(&mut state_low, new_state_byte) {
        applied_root
    } else {
        cached_root
    }
}

} // verus!
