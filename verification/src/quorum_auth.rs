//! Governance fast path: an action executes at once only when the standing
//! pre-delegation of its proposal class already covers every one of the 32
//! board seats; otherwise it is held for live signatures.
use vstd::prelude::*;
use crate::bits::{popcount, count_ones_u32, lemma_popcount_all_ones};

verus! {

/// Standing pre-delegation mask of a proposal class (bit `i` = seat `i`).
pub open spec fn class_delegation(proposal_class: u32) -> u32 {
    if proposal_class == 0 {
        0xFFFF_FFFF
    } else if proposal_class == 1 {
        0x0000_00FF
    } else {
        0
    }
}

/// Authorisation token for an executed action: high bit set, bits 24..30 hold
/// the number of delegated seats (kept to six bits), low 24 bits the action id.
pub open spec fn execution_token(approvals: u32, action_id: u32) -> u32 {
    0x8000_0000u32 | ((popcount(approvals as nat) as u32 & 0x3F) << 24u32) | (action_id
        & 0x00FF_FFFF)
}

/// Builds the authorisation token of an executed action.
pub fn execute(approvals: u32, action_id: u32) -> (token: u32)
    ensures
        token == execution_token(approvals, action_id),
{
    let seats = count_ones_u32(approvals) & 0x3F;
    0x8000_0000 | (seats << 24) | (action_id & 0x00FF_FFFF)
}

/// Decides whether an action of `proposal_class` may execute on the standing
/// delegation alone; returns its token, or `0` when it is held.
pub fn authorize_action(proposal_class: u32, action_id: u32) -> (token: u32)
    ensures
        token == (if class_delegation(proposal_class) == 0xFFFF_FFFF {
            execution_token(class_delegation(proposal_class), action_id)
        } else {
            0
        }),
{
    let approvals: u32 = match proposal_class {
        0 => 0xFFFF_FFFF,
        1 => 0x0000_00FF,
        2 => 0x0000_0000,
        _ => 0x0000_0000,
    };
    let missing = !approvals;
    proof {
        assert(missing == 0 <==> approvals == 0xFFFF_FFFFu32) by (bit_vector)
            requires
                missing == !approvals,
        ;
    }
    if missing == 0 {
        execute(approvals, action_id)
    } else {
        0
    }
}

/// Only a class whose standing delegation covers the whole board executes,
/// and an executed token always has its high bit set.
pub proof fn law_only_full_board_executes(proposal_class: u32, action_id: u32)
    ensures
        (class_delegation(proposal_class) == 0xFFFF_FFFF) <==> proposal_class == 0,
        proposal_class == 0 ==> execution_token(0xFFFF_FFFF, action_id) & 0x8000_0000 != 0,
        proposal_class == 0 ==> execution_token(0xFFFF_FFFF, action_id)
            == 0xA000_0000u32 | (action_id & 0x00FF_FFFF),
{
    lemma_popcount_all_ones(32);
    vstd::arithmetic::power2::lemma2_to64();
    let t = 0x8000_0000u32 | ((32u32 & 0x3F) << 24u32) | (action_id & 0x00FF_FFFF);
    assert(t & 0x8000_0000 != 0 && t == 0xA000_0000u32 | (action_id & 0x00FF_FFFF)) by (bit_vector)
        requires
            t == 0x8000_0000u32 | ((32u32 & 0x3F) << 24u32) | (action_id & 0x00FF_FFFF),
    ;
}

} // verus!
