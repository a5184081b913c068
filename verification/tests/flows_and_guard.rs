use satslinker::flows::{lottery_outcome, prepare_vip_stake, redistribution_plan};
use satslinker::guard::{
    StopState, WhitelistOperation, assert_caller_is_dev, assert_running, is_stopped,
    manage_whitelist, resume, stop,
};
use satslinker::info::current_share_fee_e8s;
use satslinker::qty::Quantity;
use satslinker::types::SatslinkerError;

#[test]
fn redistribution_split() {
    // 2 whole units collected: 60% / 10% / 30%, each net of the flat fee
    let plan = redistribution_plan(200_000_000).unwrap();
    assert_eq!(plan.to_swappool, 120_000_000 - 10_000);
    assert_eq!(plan.to_lottery, 20_000_000 - 10_000);
    assert_eq!(plan.to_dev, 60_000_000 - 10_000);
}

#[test]
fn redistribution_waits_for_a_whole_unit() {
    assert!(redistribution_plan(100_000_000).is_none());
    assert!(redistribution_plan(0).is_none());
    assert!(redistribution_plan(100_000_001).is_some());
}

#[test]
fn lottery_parity_decides() {
    // last digit of the random bytes is '5' (odd), entry 13 ends odd: win
    assert_eq!(lottery_outcome(13, &vec![b'5']), Some(26));
    // '4' is even against odd 13: lose
    assert_eq!(lottery_outcome(13, &vec![b'4']), None);
    // digits are searched from the end, skipping non-digits
    assert_eq!(lottery_outcome(4, &vec![b'7', b'2', b'x']), Some(8));
    // no digit anywhere: no payout
    assert_eq!(lottery_outcome(4, &vec![b'x', b'y']), None);
    assert_eq!(lottery_outcome(4, &Vec::new()), None);
}

#[test]
fn stake_pricing() {
    let rate = Quantity::new(8_000_000_000_000);
    // 0.5 base units at 8T cycles per unit buys 160 rounds
    assert_eq!(prepare_vip_stake(50_000_000, rate).unwrap(), 160);
    assert_eq!(
        prepare_vip_stake(49_999_999, rate).unwrap_err(),
        SatslinkerError::InsufficientAmount
    );
}

#[test]
fn share_fee_in_ledger_units() {
    assert_eq!(current_share_fee_e8s().units, 2_500_000);
}

#[test]
fn stop_and_resume_gate() {
    let mut g = StopState { dev: 1, stopped_for_update: false };
    assert!(!is_stopped(&g));
    assert!(assert_running(&g).is_ok());
    stop(&mut g);
    assert!(is_stopped(&g));
    assert_eq!(assert_running(&g).unwrap_err(), SatslinkerError::Paused);
    resume(&mut g);
    assert!(assert_running(&g).is_ok());
}

#[test]
fn dev_gate() {
    let g = StopState { dev: 1, stopped_for_update: false };
    assert!(assert_caller_is_dev(&g, 1).is_ok());
    assert_eq!(
        assert_caller_is_dev(&g, 2).unwrap_err(),
        SatslinkerError::AccessDenied
    );
}

#[test]
fn whitelist_management() {
    let mut wl: Vec<u64> = Vec::new();
    // only the admin may add
    assert_eq!(
        manage_whitelist(&mut wl, 1, 2, 77, WhitelistOperation::Add).unwrap_err(),
        SatslinkerError::AccessDenied
    );
    assert_eq!(
        manage_whitelist(&mut wl, 1, 1, 77, WhitelistOperation::Add).unwrap(),
        true
    );
    // anyone may check
    assert_eq!(
        manage_whitelist(&mut wl, 1, 2, 77, WhitelistOperation::Check).unwrap(),
        true
    );
    assert_eq!(
        manage_whitelist(&mut wl, 1, 2, 78, WhitelistOperation::Check).unwrap(),
        false
    );
    // adding twice keeps one entry
    manage_whitelist(&mut wl, 1, 1, 77, WhitelistOperation::Add).unwrap();
    assert_eq!(wl.len(), 1);
    // removal
    assert_eq!(
        manage_whitelist(&mut wl, 1, 2, 77, WhitelistOperation::Remove).unwrap_err(),
        SatslinkerError::AccessDenied
    );
    manage_whitelist(&mut wl, 1, 1, 77, WhitelistOperation::Remove).unwrap();
    assert_eq!(
        manage_whitelist(&mut wl, 1, 2, 77, WhitelistOperation::Check).unwrap(),
        false
    );
}

#[test]
fn error_messages() {
    assert_eq!(SatslinkerError::AccessDenied.message(), "Access denied");
    assert_eq!(
        SatslinkerError::Paused.message(),
        "The canister is stopped and is awaiting for an update"
    );
    assert_eq!(SatslinkerError::NoUnclaimedReward.message(), "No unclaimed reward");
}
