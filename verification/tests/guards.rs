use zkguest::eligibility::{check_eligibility, policy_satisfied};
use zkguest::emission_guard::minted_reward;
use zkguest::lending_credential::verify_lending_credential;
use zkguest::quorum_auth::{authorize_action, execute};
use zkguest::rollup_ledger::{process_settlement, settle, settled_amount, Settler, Tx};
use zkguest::rollup_ledger_legacy;
use zkguest::settlement_guard::{apply_settlement, settle_batch, state_changed};
use zkguest::two_key_vault::{access_granted, open_vault, recompute_and_decide, RELEASE_FLAG};

#[test]
fn execute_packs_seat_count_and_action() {
    assert_eq!(execute(0xFFFF_FFFF, 0x12_3456), 0xA012_3456);
    assert_eq!(execute(0xFF, 0x0100_0001), 0x8800_0001);
    assert_eq!(execute(0, 0), 0x8000_0000);
}

#[test]
fn only_the_full_board_class_executes() {
    assert_eq!(authorize_action(0, 0x12_3456), 0xA012_3456);
    assert_eq!(authorize_action(1, 0x12_3456), 0);
    assert_eq!(authorize_action(2, 0x12_3456), 0);
    assert_eq!(authorize_action(99, 7), 0);
}

#[test]
fn vault_needs_both_signatures() {
    assert_eq!(open_vault(100, true, true), 100 | RELEASE_FLAG);
    assert_eq!(open_vault(100, true, false), 0);
    assert_eq!(open_vault(100, false, true), 0);
    assert_eq!(open_vault(100, false, false), 0);
    assert!(access_granted(true, true));
    assert!(!access_granted(true, false));
}

#[test]
fn vault_release_with_zero_amount_is_still_flagged() {
    assert_eq!(open_vault(0, true, true), 0x8000_0000_0000_0000);
    assert_eq!(open_vault(u64::MAX, true, true), u64::MAX);
}

#[test]
fn stale_approval_bit_does_not_decide() {
    for stale in [true, false] {
        assert!(!recompute_and_decide(true, stale, true, false));
        assert!(recompute_and_decide(true, stale, true, true));
        assert!(recompute_and_decide(false, stale, false, true));
    }
}

#[test]
fn minted_reward_stops_after_emission_ends() {
    assert_eq!(minted_reward(false, 3, 5), 15);
    assert_eq!(minted_reward(true, 3, 5), 0);
    assert_eq!(minted_reward(false, 0x1_0000, 0x1_0000), 0);
}

#[test]
fn settlement_root_follows_the_state_byte() {
    assert_eq!(settle_batch(0, 1, 2), 2);
    assert_eq!(settle_batch(5, 1, 2), 1);
    let mut cell: u8 = 3;
    assert!(!state_changed(&mut cell, 3));
    assert_eq!(cell, 3);
    let mut cell: u8 = 0;
    assert!(state_changed(&mut cell, 7));
    assert_eq!(cell, 7);
    let mut port: u8 = 9;
    apply_settlement(&mut port, 4);
    assert_eq!(port, 4);
}

#[test]
fn rollup_credit_is_the_declared_credit() {
    let tx = Tx { credit: 3, from: 1, to: 2 };
    assert_eq!(settled_amount(tx), 3);
    assert_eq!(settle(&(), tx), 3);
    let rule: &dyn Settler = &();
    assert_eq!(settle(rule, tx), 3);
    assert_eq!(settled_amount(Tx { credit: 5, from: 7, to: 9 }), 5);
    assert_eq!(process_settlement(1000, 1, 7, 9), 1001);
    assert_eq!(process_settlement(100, 5, 0, 1), 105);
    assert_eq!(process_settlement(10, -1, 0, 1), 9);
    assert_eq!(process_settlement(u32::MAX, 1, 0, 1), 0);
}

#[test]
fn legacy_rollup_credit() {
    assert_eq!(rollup_ledger_legacy::settled_amount(), 1);
    assert_eq!(rollup_ledger_legacy::settle(&()), 1);
    assert_eq!(rollup_ledger_legacy::read_amount(rollup_ledger_legacy::Tx(5, 0, 0)), 5);
    assert_eq!(rollup_ledger_legacy::read_amount(rollup_ledger_legacy::Tx(1, 2, 3)), 1);
}

#[test]
fn eligibility_needs_age_and_region() {
    assert_eq!(check_eligibility(18, 7), 1);
    assert_eq!(check_eligibility(19, 7), 1);
    assert_eq!(check_eligibility(25, 7), 1);
    assert_eq!(check_eligibility(17, 7), 0);
    assert_eq!(check_eligibility(25, 44), 0);
    assert_eq!(check_eligibility(18, 6), 0);
    assert!(policy_satisfied(18, 7));
    assert!(!policy_satisfied(0, 0));
}

#[test]
fn lending_credential_grants_a_nullifier() {
    let r = verify_lending_credential(1, 30, 18, 1000, 500, 6000, 5000, 4000, 42, 7);
    assert_eq!(r, 0xbcee_ad41_c8c1_b605);
}

#[test]
fn lending_credential_refusals() {
    // loan-to-value 5000 bps above a 4000 bps cap
    assert_eq!(verify_lending_credential(1, 30, 18, 1000, 500, 4000, 5000, 4000, 42, 7), 0);
    // no collateral
    assert_eq!(verify_lending_credential(1, 30, 18, 0, 500, 6000, 5000, 4000, 42, 7), 0);
    // wrong credential type, too young, too little income
    assert_eq!(verify_lending_credential(2, 30, 18, 1000, 500, 6000, 5000, 4000, 42, 7), 0);
    assert_eq!(verify_lending_credential(1, 17, 18, 1000, 500, 6000, 5000, 4000, 42, 7), 0);
    assert_eq!(verify_lending_credential(1, 30, 18, 1000, 500, 6000, 3999, 4000, 42, 7), 0);
    // a loan so large that scaling saturates is over any cap but the largest
    assert_eq!(verify_lending_credential(1, 30, 18, 1, u64::MAX, 10_000, 5000, 4000, 42, 7), 0);
    assert_eq!(verify_lending_credential(1, 30, 18, 1, u64::MAX, u64::MAX, 5000, 4000, 42, 7), 0xbcee_ad41_c8c1_b605);
}
