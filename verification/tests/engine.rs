use satslinker::qty::Quantity;
use satslinker::state::SatslinkerState;
use satslinker::types::SatslinkerError;

fn seeded_state() -> SatslinkerState {
    let mut s = SatslinkerState::new();
    s.init(vec![7u8; 32]);
    s
}

fn pledge_sum_of(s: &SatslinkerState) -> u128 {
    let mut sum: u128 = 0;
    let mut i = 0;
    while i < s.pledge_shares.len() {
        let (_, p) = s.pledge_shares.entry_at(i);
        sum += p.amount.units;
        i += 1;
    }
    sum
}

#[test]
fn conservation_across_operations() {
    let mut s = seeded_state();
    // mint two pledges, one below threshold (ignored), one above
    s.mint_pledge_share(Quantity::new(1_000_000), 0, 1);
    s.mint_pledge_share(Quantity::new(5_000_000), 0, 2);
    s.mint_pledge_share(Quantity::new(7_000_000), 0, 3);
    assert_eq!(s.info.total_pledge_token_supply.units, pledge_sum_of(&s));
    // a round accrues rewards and may prune, keeping the equality
    s.run_round(0);
    assert_eq!(s.info.total_pledge_token_supply.units, pledge_sum_of(&s));
    // claim and revert keep it
    let r = s.claim_pledge_reward(2).unwrap();
    assert_eq!(s.info.total_pledge_token_supply.units, pledge_sum_of(&s));
    s.revert_claim_pledge_reward(2, r);
    assert_eq!(s.info.total_pledge_token_supply.units, pledge_sum_of(&s));
    // redeem after the lock window keeps it
    let redeemed = s.redeem_pledge(3, u64::MAX).unwrap();
    assert_eq!(redeemed.units, 7_000_000);
    assert_eq!(s.info.total_pledge_token_supply.units, pledge_sum_of(&s));
}

#[test]
fn no_double_claim() {
    let mut s = seeded_state();
    s.mint_pledge_share(Quantity::new(10_000_000), 0, 9);
    s.run_round(0);
    let first = s.claim_pledge_reward(9);
    // the whole pledge pool went to the only pledge: 37.5% of the reward
    assert_eq!(first.unwrap().units, 102_400_000_000 * 375 / 1000);
    let second = s.claim_pledge_reward(9);
    assert_eq!(second.unwrap_err(), SatslinkerError::NoUnclaimedReward);
}

#[test]
fn revert_restores_state() {
    let mut s = seeded_state();
    s.mint_pledge_share(Quantity::new(10_000_000), 0, 9);
    s.run_round(0);
    let minted_before = s.info.total_token_minted.units;
    let reward_before = s.pledge_shares.get(9).unwrap().unclaimed_reward.units;
    let claimed = s.claim_pledge_reward(9).unwrap();
    // the transfer failed: compensate
    s.revert_claim_pledge_reward(9, claimed);
    assert_eq!(s.info.total_token_minted.units, minted_before);
    assert_eq!(
        s.pledge_shares.get(9).unwrap().unclaimed_reward.units,
        reward_before
    );
}

#[test]
fn revert_recreates_pruned_vip_position() {
    let mut s = seeded_state();
    let addr = [9u8; 20];
    s.mint_vip_share(5, 4, addr);
    // credit a reward, then claim at a time past the expiry: the position
    // is pruned together with the payout
    s.revert_claim_vip_reward(4, Quantity::new(33));
    let claimed = s.claim_vip_reward(4, 100).unwrap();
    assert_eq!(claimed.units, 33);
    assert!(s.vip_shares.get(4).is_none());
    // the transfer failed: the reward comes back on a fresh position
    s.revert_claim_vip_reward(4, claimed);
    let p = s.vip_shares.get(4).unwrap();
    assert_eq!(p.unclaimed_reward.units, 33);
    assert_eq!(p.expiry, 0);
}

#[test]
fn round_monotonicity() {
    let mut s = seeded_state();
    assert_eq!(s.info.current_pos_round, 0);
    s.run_round(0);
    assert_eq!(s.info.current_pos_round, 1);
    s.run_round(0);
    assert_eq!(s.info.current_pos_round, 2);
    // disabled: the tick is a no-op and the counter holds
    s.info.disable_satslink();
    s.run_round(0);
    assert_eq!(s.info.current_pos_round, 2);
}

#[test]
fn halving_shrinks_reward_by_a_quarter() {
    let mut s = seeded_state();
    s.info.current_pos_round = 5039;
    s.info.complete_round();
    assert_eq!(s.info.current_pos_round, 5040);
    assert_eq!(s.info.current_token_reward.units, 102_400_000_000 * 3 / 4);
    // off the boundary nothing changes
    s.info.complete_round();
    assert_eq!(s.info.current_token_reward.units, 102_400_000_000 * 3 / 4);
}

#[test]
fn halving_stops_at_the_floor() {
    let mut s = seeded_state();
    // just above the floor: the shrunk value would undershoot, so it clamps
    s.info.current_token_reward = Quantity::new(150_000);
    s.info.current_pos_round = 5039;
    s.info.complete_round();
    assert_eq!(s.info.current_token_reward.units, 140_000);
    // at the floor: untouched on the next boundary
    s.info.current_pos_round = 10_079;
    s.info.complete_round();
    assert_eq!(s.info.current_token_reward.units, 140_000);
}

#[test]
fn migration_single_use() {
    let mut s = seeded_state();
    let addr = [1u8; 20];
    s.mint_vip_share(50, 10, addr);
    s.mint_pledge_share(Quantity::new(5_000_000), 3, 10);
    s.init_tmp_can_migrate();
    let first = s.migrate_satslinker_account(10, 20);
    assert!(first.is_ok());
    // positions moved onto the destination
    assert!(s.vip_shares.get(10).is_none());
    assert_eq!(s.vip_shares.get(20).unwrap().expiry, 50);
    assert!(s.pledge_shares.get(10).is_none());
    assert_eq!(s.pledge_shares.get(20).unwrap().amount.units, 5_000_000);
    assert_eq!(s.pledge_shares.get(20).unwrap().pledge_time, 3);
    // the permission is spent: a second attempt is refused
    let second = s.migrate_satslinker_account(10, 20);
    assert_eq!(second.unwrap_err(), SatslinkerError::AccessDenied);
}

#[test]
fn migration_merges_additively() {
    let mut s = seeded_state();
    s.mint_vip_share(50, 10, [1u8; 20]);
    s.mint_vip_share(70, 20, [2u8; 20]);
    s.mint_pledge_share(Quantity::new(5_000_000), 3, 10);
    s.mint_pledge_share(Quantity::new(6_000_000), 4, 20);
    s.init_tmp_can_migrate();
    s.migrate_satslinker_account(10, 20).unwrap();
    let v = s.vip_shares.get(20).unwrap();
    assert_eq!(v.expiry, 120);
    assert_eq!(v.address, [2u8; 20]);
    let p = s.pledge_shares.get(20).unwrap();
    assert_eq!(p.amount.units, 11_000_000);
    assert_eq!(p.pledge_time, 7);
    assert_eq!(s.info.total_pledge_token_supply.units, 11_000_000);
}

#[test]
fn migration_denied_without_allow_lists() {
    let mut s = seeded_state();
    s.mint_vip_share(50, 10, [1u8; 20]);
    // the allow-lists were never captured
    let r = s.migrate_satslinker_account(10, 20);
    assert_eq!(r.unwrap_err(), SatslinkerError::AccessDenied);
}

#[test]
fn allow_lists_capture_only_once() {
    let mut s = seeded_state();
    s.mint_vip_share(50, 10, [1u8; 20]);
    s.init_tmp_can_migrate();
    // a later position must not sneak into the snapshot
    s.mint_vip_share(50, 11, [1u8; 20]);
    s.init_tmp_can_migrate();
    assert_eq!(s.info.tmp_can_vip_migrate.as_ref().unwrap().len(), 1);
    assert_eq!(s.info.tmp_can_vip_migrate.as_ref().unwrap()[0], 10);
}

#[test]
fn stake_extends_expiry_additively() {
    let mut s = seeded_state();
    let rate = s.info.get_icp_to_cycles_exchange_rate();
    // 0.5 base units, the minimum threshold
    let ext = satslinker::flows::prepare_vip_stake(50_000_000, rate).unwrap();
    assert_eq!(ext, 160);
    let addr = [3u8; 20];
    s.mint_vip_share(ext, 5, addr);
    assert_eq!(s.vip_shares.get(5).unwrap().expiry, 160);
    // a second stake extends, not replaces
    s.mint_vip_share(ext, 5, addr);
    assert_eq!(s.vip_shares.get(5).unwrap().expiry, 320);
}

#[test]
fn sub_threshold_pledge_not_recorded() {
    let mut s = seeded_state();
    // below the fee threshold of 2_500_000 raw units: the surrounding
    // transfer accepts the amount but no position is recorded and the
    // supply is unchanged
    s.mint_pledge_share(Quantity::new(2_499_999), 0, 8);
    assert!(s.pledge_shares.get(8).is_none());
    assert_eq!(s.info.total_pledge_token_supply.units, 0);
    // at the threshold it is recorded
    s.mint_pledge_share(Quantity::new(2_500_000), 0, 8);
    assert_eq!(s.pledge_shares.get(8).unwrap().amount.units, 2_500_000);
    assert_eq!(s.info.total_pledge_token_supply.units, 2_500_000);
}

#[test]
fn vip_share_dropped_with_no_vip_positions() {
    let mut s = seeded_state();
    s.mint_pledge_share(Quantity::new(4_000_000), 0, 1);
    s.mint_pledge_share(Quantity::new(12_000_000), 0, 2);
    let lottery_before = s.info.total_token_lottery.units;
    let dev_before = s.info.total_token_dev.units;
    s.run_round(0);
    // no VIP position: the VIP half of the reward goes nowhere
    assert_eq!(s.vip_shares.len(), 0);
    // the pledge pool is split pro-rata: 4/16 and 12/16 of 37.5%
    let pool = 102_400_000_000u128 * 375 / 1000;
    assert_eq!(
        s.pledge_shares.get(1).unwrap().unclaimed_reward.units,
        pool * 4_000_000 / 16_000_000
    );
    assert_eq!(
        s.pledge_shares.get(2).unwrap().unclaimed_reward.units,
        pool * 12_000_000 / 16_000_000
    );
    // lottery and developer pools grow by exactly their own cuts
    assert_eq!(
        s.info.total_token_lottery.units,
        lottery_before + 102_400_000_000 * 100 / 1000
    );
    assert_eq!(
        s.info.total_token_dev.units,
        dev_before + 102_400_000_000 * 25 / 1000
    );
}

#[test]
fn expired_vip_with_reward_is_kept_then_pruned_on_claim() {
    let mut s = seeded_state();
    s.mint_vip_share(1, 6, [4u8; 20]);
    s.run_round(0); // accrues the whole VIP pool to the only position
    let per = 102_400_000_000u128 * 500 / 1000;
    assert_eq!(s.vip_shares.get(6).unwrap().unclaimed_reward.units, per);
    // now expired but holding a reward: the next round keeps it
    s.run_round(100);
    assert!(s.vip_shares.get(6).is_some());
    // claiming pays out and prunes
    let claimed = s.claim_vip_reward(6, 100).unwrap();
    assert!(claimed.units >= per);
    assert!(s.vip_shares.get(6).is_none());
    // one more round: nothing left
    s.run_round(100);
    assert_eq!(s.vip_shares.len(), 0);
}

#[test]
fn expired_pledge_released_from_supply() {
    let mut s = seeded_state();
    s.mint_pledge_share(Quantity::new(5_000_000), 0, 1);
    s.mint_pledge_share(Quantity::new(3_000_000), u64::MAX / 2, 2);
    // at this time the first pledge's earning window is over
    let now = 60_000_000_000_000 + 1;
    s.run_round(now);
    assert!(s.pledge_shares.get(1).is_none());
    assert_eq!(s.info.total_pledge_token_supply.units, 3_000_000);
    // the survivor took the whole pledge pool
    let pool = 102_400_000_000u128 * 375 / 1000;
    assert_eq!(s.pledge_shares.get(2).unwrap().unclaimed_reward.units, pool);
}

#[test]
fn accumulators_flush_only_on_confirmation() {
    let mut s = seeded_state();
    let mut plan = s.run_round(0);
    let mut rounds = 1;
    while plan.lottery_due.is_none() {
        plan = s.run_round(0);
        rounds += 1;
    }
    // the lottery pool crosses the threshold after 11 rounds of 10% cuts
    assert_eq!(rounds, 11);
    let due = plan.lottery_due.unwrap();
    assert_eq!(due.units, 11 * (102_400_000_000 * 100 / 1000));
    // the accumulator is untouched until the host confirms the transfer
    assert_eq!(s.info.total_token_lottery.units, due.units);
    let minted_before = s.info.total_token_minted.units;
    s.note_lottery_flushed(due);
    assert_eq!(s.info.total_token_lottery.units, 0);
    assert_eq!(s.info.total_token_minted.units, minted_before + due.units);
}

#[test]
fn redeem_before_unlock_fails() {
    let mut s = seeded_state();
    s.mint_pledge_share(Quantity::new(5_000_000), 1000, 9);
    let r = s.redeem_pledge(9, 1001);
    assert_eq!(r.unwrap_err(), SatslinkerError::NotYetUnlocked);
    // nothing pledged at all
    let r2 = s.redeem_pledge(77, u64::MAX);
    assert_eq!(r2.unwrap_err(), SatslinkerError::InsufficientAmount);
}

#[test]
fn seed_rolls_and_stays_32_bytes() {
    let mut s = seeded_state();
    let before = s.info.seed.clone();
    s.info.update_seed();
    assert_eq!(s.info.seed.len(), 32);
    assert_ne!(s.info.seed, before);
    // deterministic: the same chain from the same seed
    let mut t = seeded_state();
    t.info.update_seed();
    assert_eq!(s.info.seed, t.info.seed);
}

#[test]
fn winning_idx_reads_seed_little_endian() {
    let mut s = SatslinkerState::new();
    let mut seed = vec![0u8; 32];
    seed[0] = 37;
    s.init(seed);
    assert_eq!(s.info.current_winning_idx(10), 7);
    assert_eq!(s.info.current_winning_idx(100), 37);
}

#[test]
fn totals_snapshot() {
    let mut s = seeded_state();
    s.mint_vip_share(42, 5, [5u8; 20]);
    s.mint_pledge_share(Quantity::new(9_000_000), 1, 5);
    let t = s.get_totals(&5);
    assert_eq!(t.current_pos_round, 0);
    assert_eq!(t.current_token_reward.units, 102_400_000_000);
    assert_eq!(t.current_share_fee.units, 25_000_000_000);
    assert!(t.is_satslink_enabled);
    assert_eq!(t.total_vip_participants, 1);
    assert_eq!(t.total_pledge_participants, 1);
    assert_eq!(t.your_vip_shares, 42);
    assert!(t.your_vip_eligibility_status);
    assert_eq!(t.your_pledge_shares.units, 9_000_000);
    assert!(t.your_pledge_eligibility_status);
    let u = s.get_totals(&6);
    assert!(!u.your_vip_eligibility_status);
    assert!(!u.your_pledge_eligibility_status);
    assert_eq!(u.your_pledge_shares.units, 0);
}

#[test]
fn satslinkers_by_address() {
    let mut s = seeded_state();
    let addr = [8u8; 20];
    s.mint_vip_share(10, 1, addr);
    s.mint_vip_share(20, 2, [9u8; 20]);
    s.mint_vip_share(30, 3, addr);
    let r = s.get_satslinkers(addr);
    assert_eq!(r.entry.len(), 2);
    assert_eq!(r.entry[0].1, 1);
    assert_eq!(r.entry[1].1, 3);
    assert_eq!(r.entry[1].2, 30);
    assert!(r.entry[0].4);
}

#[test]
fn exchange_rate_cached_and_rescaled() {
    let mut s = SatslinkerState::new();
    // the pre-oracle default
    assert_eq!(s.info.get_icp_to_cycles_exchange_rate().units, 8_000_000_000_000);
    // a per-myriad answer is rescaled to 12 fractional digits
    s.info.update_icp_to_cycles_exchange_rate(12_345);
    assert_eq!(s.info.get_icp_to_cycles_exchange_rate().units, 1_234_500_000_000);
}

#[test]
fn winning_idx_is_little_endian_over_eight_bytes() {
    let mut s = SatslinkerState::new();
    let mut seed = vec![0u8; 32];
    seed[0] = 1;
    seed[1] = 1;
    s.init(seed);
    // 1 + 256
    assert_eq!(s.info.current_winning_idx(1000), 257);
}

#[test]
fn claim_keeps_unexpired_position() {
    let mut s = seeded_state();
    s.mint_vip_share(1000, 4, [1u8; 20]);
    s.run_round(0);
    let claimed = s.claim_vip_reward(4, 10).unwrap();
    assert!(claimed.units > 0);
    // not yet expired: the position survives with its reward zeroed
    let p = s.vip_shares.get(4).unwrap();
    assert_eq!(p.unclaimed_reward.units, 0);
    assert_eq!(p.expiry, 1000);
}

#[test]
fn claim_without_position_fails() {
    let mut s = seeded_state();
    let r = s.claim_vip_reward(99, 0);
    assert_eq!(r.unwrap_err(), SatslinkerError::NoUnclaimedReward);
    let r2 = s.claim_pledge_reward(99);
    assert_eq!(r2.unwrap_err(), SatslinkerError::NoUnclaimedReward);
}

#[test]
fn init_enables_distribution_and_sets_reward() {
    let mut s = SatslinkerState::new();
    assert!(!s.info.is_satslink_enabled());
    // before initialization a tick does nothing
    s.run_round(0);
    assert_eq!(s.info.current_pos_round, 0);
    s.init(vec![0u8; 32]);
    assert!(s.info.is_satslink_enabled());
    assert_eq!(s.info.current_token_reward.units, 102_400_000_000);
    assert_eq!(s.info.seed.len(), 32);
}

#[test]
fn info_round_trip() {
    let mut s = seeded_state();
    let mut info = s.get_info().clone();
    info.disable_satslink();
    s.set_info(info);
    assert!(!s.info.is_satslink_enabled());
}
