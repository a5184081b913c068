//! The position stores and every operation that mutates them.
//!
//! Each mutating operation's contract pins the new state down exactly,
//! through a spec-level transition function over the stores' association
//! views. The well-formedness predicate [`SatslinkerState::wf`] carries the
//! conservation invariant: the recorded pledge supply always equals the sum
//! of the live pledge positions' amounts.

use vstd::prelude::*;
use crate::qty::{E8s, Quantity};
use crate::store::{
    KvVec,
    assoc_contains,
    assoc_get,
    assoc_remove,
    assoc_set,
    assoc_sum,
    lemma_assoc_get_le_sum,
    lemma_assoc_push_unique,
    lemma_assoc_remove_unique,
    lemma_assoc_set_unique,
    lemma_assoc_sum_nonneg,
    lemma_assoc_sum_push,
    lemma_assoc_sum_remove,
    lemma_assoc_sum_set,
};
use crate::types::{
    AccountId,
    Address,
    MAX_PLEDGE_SUPPLY_UNITS,
    PLEDGE_ROUND_DELAY_NS,
    POS_ROUND_DELAY_NS,
    POS_ROUND_START_REWARD_E8S,
    PledgePosition,
    SatslinkerError,
    TCYCLE_POS_ROUND_BASE_FEE,
    Timestamp,
    VipPosition,
    zero_address,
};
use crate::info::SatslinkerStateInfo;

verus! {

/// Raw e8s units a pledge must reach to be recorded and keep earning.
pub open spec fn share_fee_units() -> int {
    (TCYCLE_POS_ROUND_BASE_FEE / 10_000) as int
}

/// Projection of a pledge position onto its pledged amount.
pub open spec fn pledge_amount_proj() -> spec_fn(PledgePosition) -> int {
    |p: PledgePosition| p.amount.units as int
}

/// Sum of all pledged amounts in a store view.
pub open spec fn pledge_sum(s: Seq<(u64, PledgePosition)>) -> int {
    assoc_sum(s, pledge_amount_proj())
}

/// The whole accounting state: the two position stores and the global
/// counters record.
pub struct SatslinkerState {
    pub vip_shares: KvVec<VipPosition>,
    pub pledge_shares: KvVec<PledgePosition>,
    pub info: SatslinkerStateInfo,
}

/// How a VIP store changes when `tmps` round units of eligibility are minted
/// for `to`: an existing position has its expiry extended additively, a
/// missing one is created with expiry `tmps` and no reward.
pub open spec fn vip_after_mint(
    s: Seq<(u64, VipPosition)>,
    tmps: u64,
    to: u64,
    address: Address,
) -> Seq<(u64, VipPosition)> {
    match assoc_get(s, to) {
        Some(p) => assoc_set(
            s,
            to,
            VipPosition { expiry: (p.expiry + tmps) as u64, ..p },
        ),
        None => s.push(
            (to, VipPosition { address, expiry: tmps, unclaimed_reward: Quantity { units: 0 } }),
        ),
    }
}

/// The reward a VIP claim by `caller` pays out, if any.
pub open spec fn vip_claim_outcome(s: Seq<(u64, VipPosition)>, caller: u64) -> Option<u128> {
    match assoc_get(s, caller) {
        Some(p) => if p.unclaimed_reward.units == 0 {
            None
        } else {
            Some(p.unclaimed_reward.units)
        },
        None => None,
    }
}

/// How a VIP store changes under a claim: nothing on failure; on success the
/// reward is zeroed, and an already-expired position is pruned outright.
pub open spec fn vip_after_claim(s: Seq<(u64, VipPosition)>, caller: u64, now: u64) -> Seq<
    (u64, VipPosition),
> {
    match assoc_get(s, caller) {
        Some(p) => if p.unclaimed_reward.units == 0 {
            s
        } else if now >= p.expiry {
            assoc_remove(s, caller)
        } else {
            assoc_set(s, caller, VipPosition { unclaimed_reward: Quantity { units: 0 }, ..p })
        },
        None => s,
    }
}

/// How a VIP store changes when a failed transfer re-credits `amount` to
/// `caller`: an existing position gets the reward back; a pruned one is
/// recreated fresh (zero expiry, zero address) carrying only the reward.
pub open spec fn vip_revert_rel(
    pre: Seq<(u64, VipPosition)>,
    caller: u64,
    amount: u128,
    post: Seq<(u64, VipPosition)>,
) -> bool {
    match assoc_get(pre, caller) {
        Some(p) => post == assoc_set(
            pre,
            caller,
            VipPosition {
                unclaimed_reward: Quantity { units: (p.unclaimed_reward.units + amount) as u128 },
                ..p
            },
        ),
        None => exists|p: VipPosition|
            post == #[trigger] pre.push((caller, p)) && p.expiry == 0
                && p.unclaimed_reward.units == amount,
    }
}

/// How a pledge store changes when `qty` more tokens are pledged by `to` at
/// `pledge_time`: the amounts merge additively and the lock window restarts;
/// but a merged amount still below the fee threshold is not recorded at all.
pub open spec fn pledge_after_mint(
    s: Seq<(u64, PledgePosition)>,
    qty: u128,
    pledge_time: u64,
    to: u64,
) -> Seq<(u64, PledgePosition)> {
    match assoc_get(s, to) {
        Some(p) => if p.amount.units + qty >= share_fee_units() {
            assoc_set(
                s,
                to,
                PledgePosition {
                    amount: Quantity { units: (p.amount.units + qty) as u128 },
                    pledge_time,
                    ..p
                },
            )
        } else {
            s
        },
        None => if qty >= share_fee_units() {
            s.push(
                (
                    to,
                    PledgePosition {
                        amount: Quantity { units: qty },
                        pledge_time,
                        unclaimed_reward: Quantity { units: 0 },
                    },
                ),
            )
        } else {
            s
        },
    }
}

/// Whether this mint is recorded (reaches the fee threshold).
pub open spec fn pledge_mint_recorded(s: Seq<(u64, PledgePosition)>, qty: u128, to: u64) -> bool {
    match assoc_get(s, to) {
        Some(p) => p.amount.units + qty >= share_fee_units(),
        None => qty >= share_fee_units(),
    }
}

/// The reward a pledge claim by `caller` pays out, if any.
pub open spec fn pledge_claim_outcome(s: Seq<(u64, PledgePosition)>, caller: u64) -> Option<
    u128,
> {
    match assoc_get(s, caller) {
        Some(p) => if p.unclaimed_reward.units == 0 {
            None
        } else {
            Some(p.unclaimed_reward.units)
        },
        None => None,
    }
}

/// How a pledge store changes under a claim: nothing on failure; on success
/// the reward is zeroed, and a position below the fee threshold is pruned.
pub open spec fn pledge_after_claim(s: Seq<(u64, PledgePosition)>, caller: u64) -> Seq<
    (u64, PledgePosition),
> {
    match assoc_get(s, caller) {
        Some(p) => if p.unclaimed_reward.units == 0 {
            s
        } else if p.amount.units < share_fee_units() {
            assoc_remove(s, caller)
        } else {
            assoc_set(s, caller, PledgePosition { unclaimed_reward: Quantity { units: 0 }, ..p })
        },
        None => s,
    }
}

/// The pledged amount a pruning pledge claim releases from the supply.
pub open spec fn pledge_claim_released(s: Seq<(u64, PledgePosition)>, caller: u64) -> int {
    match assoc_get(s, caller) {
        Some(p) => if p.unclaimed_reward.units != 0 && p.amount.units < share_fee_units() {
            p.amount.units as int
        } else {
            0
        },
        None => 0,
    }
}

/// How a pledge store changes when a failed transfer re-credits `amount` to
/// `caller`: an existing position gets the reward back; a pruned one is
/// recreated empty (zero amount, zero pledge time) carrying only the reward.
pub open spec fn pledge_after_revert(
    s: Seq<(u64, PledgePosition)>,
    caller: u64,
    amount: u128,
) -> Seq<(u64, PledgePosition)> {
    match assoc_get(s, caller) {
        Some(p) => assoc_set(
            s,
            caller,
            PledgePosition {
                unclaimed_reward: Quantity { units: (p.unclaimed_reward.units + amount) as u128 },
                ..p
            },
        ),
        None => s.push(
            (
                caller,
                PledgePosition {
                    amount: Quantity { units: 0 },
                    pledge_time: 0,
                    unclaimed_reward: Quantity { units: amount },
                },
            ),
        ),
    }
}

/// Whether a pledge's lock-up window has elapsed at `now`.
pub open spec fn pledge_unlocked(p: PledgePosition, now: u64) -> bool {
    now >= p.pledge_time + PLEDGE_ROUND_DELAY_NS
}

/// How a VIP store changes under migration: the caller's position (if any)
/// is removed and merged additively into the destination's, keeping the
/// destination's address when both exist.
pub open spec fn vip_after_migrate(s: Seq<(u64, VipPosition)>, caller: u64, to: u64) -> Seq<
    (u64, VipPosition),
> {
    match assoc_get(s, caller) {
        Some(p1) => {
            let removed = assoc_remove(s, caller);
            match assoc_get(removed, to) {
                Some(p2) => assoc_set(
                    removed,
                    to,
                    VipPosition {
                        address: p2.address,
                        expiry: (p1.expiry + p2.expiry) as u64,
                        unclaimed_reward: Quantity {
                            units: (p1.unclaimed_reward.units + p2.unclaimed_reward.units) as u128,
                        },
                    },
                ),
                None => removed.push((to, p1)),
            }
        },
        None => s,
    }
}

/// How a pledge store changes under migration: amounts, pledge times and
/// rewards all merge additively into the destination.
pub open spec fn pledge_after_migrate(s: Seq<(u64, PledgePosition)>, caller: u64, to: u64) -> Seq<
    (u64, PledgePosition),
> {
    match assoc_get(s, caller) {
        Some(p1) => {
            let removed = assoc_remove(s, caller);
            match assoc_get(removed, to) {
                Some(p2) => assoc_set(
                    removed,
                    to,
                    PledgePosition {
                        amount: Quantity { units: (p1.amount.units + p2.amount.units) as u128 },
                        pledge_time: (p1.pledge_time + p2.pledge_time) as u64,
                        unclaimed_reward: Quantity {
                            units: (p1.unclaimed_reward.units + p2.unclaimed_reward.units) as u128,
                        },
                    },
                ),
                None => removed.push((to, p1)),
            }
        },
        None => s,
    }
}

/// The machine-limit headroom migration needs: the merged expiry, pledge
/// time and rewards must fit their carriers.
pub open spec fn migrate_fits(s: SatslinkerState, caller: u64, to: u64) -> bool {
    &&& (match (assoc_get(s.vip_shares@, caller), assoc_get(
        assoc_remove(s.vip_shares@, caller),
        to,
    )) {
        (Some(p1), Some(p2)) => p1.expiry + p2.expiry <= u64::MAX && p1.unclaimed_reward.units
            + p2.unclaimed_reward.units <= u128::MAX,
        _ => true,
    })
    &&& (match (assoc_get(s.pledge_shares@, caller), assoc_get(
        assoc_remove(s.pledge_shares@, caller),
        to,
    )) {
        (Some(p1), Some(p2)) => p1.pledge_time + p2.pledge_time <= u64::MAX
            && p1.unclaimed_reward.units + p2.unclaimed_reward.units <= u128::MAX,
        _ => true,
    })
}

impl SatslinkerState {
    /// Well-formedness: distinct keys in both stores, the reward within its
    /// schedule, and the conservation invariant — the recorded pledge supply
    /// equals the sum of the live pledge positions' amounts and stays under
    /// the cap that keeps pro-rata products in range.
    pub open spec fn wf(&self) -> bool {
        &&& self.vip_shares.wf()
        &&& self.pledge_shares.wf()
        &&& self.info.wf()
        &&& self.info.total_pledge_token_supply.units as int == pledge_sum(self.pledge_shares@)
        &&& self.info.total_pledge_token_supply.units <= MAX_PLEDGE_SUPPLY_UNITS
    }

    /// An empty state: no positions, the default info record.
    pub fn new() -> (r: Self)
        ensures
            r.vip_shares@ == Seq::<(u64, VipPosition)>::empty(),
            r.pledge_shares@ == Seq::<(u64, PledgePosition)>::empty(),
            r.info.total_pledge_token_supply.units == 0,
            r.info.total_token_lottery.units == 0,
            r.info.total_token_dev.units == 0,
            r.info.total_token_minted.units == 0,
            r.info.current_token_reward.units == 0,
            r.info.pos_round_delay_ns == 0,
            r.info.seed@ == Seq::<u8>::empty(),
            r.info.icp_to_cycles_exchange_rate is None,
            r.info.satslink_enabled is None,
            r.info.tmp_can_vip_migrate is None,
            r.info.tmp_can_pledge_migrate is None,
            r.info.current_pos_round == 0,
            r.wf(),
    {
        let r = SatslinkerState {
            vip_shares: KvVec::new(),
            pledge_shares: KvVec::new(),
            info: Default::default(),
        };
        proof {
            assert(assoc_sum(Seq::<(u64, PledgePosition)>::empty(), pledge_amount_proj()) == 0);
        }
        r
    }

    /// Seeds the info record and switches distribution on.
    pub fn init(&mut self, seed: Vec<u8>)
        requires
            old(self).wf(),
        ensures
            final(self).wf(),
            final(self).vip_shares@ == old(self).vip_shares@,
            final(self).pledge_shares@ == old(self).pledge_shares@,
            final(self).info.seed@ == seed@,
            final(self).info.current_token_reward.units == POS_ROUND_START_REWARD_E8S,
            final(self).info.pos_round_delay_ns == POS_ROUND_DELAY_NS,
            final(self).info.satslink_enabled == Some(true),
            final(self).info.total_pledge_token_supply == old(self).info.total_pledge_token_supply,
            final(self).info.total_token_lottery == old(self).info.total_token_lottery,
            final(self).info.total_token_dev == old(self).info.total_token_dev,
            final(self).info.total_token_minted == old(self).info.total_token_minted,
            final(self).info.current_pos_round == old(self).info.current_pos_round,
            final(self).info.tmp_can_vip_migrate == old(self).info.tmp_can_vip_migrate,
            final(self).info.tmp_can_pledge_migrate == old(self).info.tmp_can_pledge_migrate,
    {
        self.info.init(seed);
        self.info.enable_satslink();
    }

    /// Captures the one-time migration allow-lists from the stores' current
    /// keys — but only on the first call: a list already captured is left
    /// exactly as it is.
    pub fn init_tmp_can_migrate(&mut self)
        requires
            old(self).wf(),
        ensures
            final(self).wf(),
            final(self).vip_shares@ == old(self).vip_shares@,
            final(self).pledge_shares@ == old(self).pledge_shares@,
            old(self).info.tmp_can_vip_migrate is Some ==> final(self).info.tmp_can_vip_migrate
                == old(self).info.tmp_can_vip_migrate,
            old(self).info.tmp_can_vip_migrate is None ==> final(self).info.tmp_can_vip_migrate
                is Some && final(self).info.tmp_can_vip_migrate->0@.len() == old(self).vip_shares@.len() && forall|i: int|
                0 <= i < old(self).vip_shares@.len() ==> final(self).info.tmp_can_vip_migrate->0@[i]
                    == (#[trigger] old(self).vip_shares@[i]).0,
            old(self).info.tmp_can_pledge_migrate is Some ==> final(self).info.tmp_can_pledge_migrate == old(self).info.tmp_can_pledge_migrate,
            old(self).info.tmp_can_pledge_migrate is None ==> final(self).info.tmp_can_pledge_migrate is Some && final(self).info.tmp_can_pledge_migrate->0@.len() == old(self).pledge_shares@.len() && forall|
                i: int,
            |
                0 <= i < old(self).pledge_shares@.len() ==> final(self).info.tmp_can_pledge_migrate->0@[i] == (#[trigger] old(self).pledge_shares@[i]).0,
            final(self).info == (SatslinkerStateInfo {
                tmp_can_vip_migrate: final(self).info.tmp_can_vip_migrate,
                tmp_can_pledge_migrate: final(self).info.tmp_can_pledge_migrate,
                ..old(self).info
            }),
    {
        if self.info.tmp_can_vip_migrate.is_none() {
            let keys = self.vip_shares.keys();
            self.info.tmp_can_vip_migrate = Some(keys);
        }
        if self.info.tmp_can_pledge_migrate.is_none() {
            let keys = self.pledge_shares.keys();
            self.info.tmp_can_pledge_migrate = Some(keys);
        }
    }

    /// Mints `tmps` round units of VIP eligibility for `to`: extends an
    /// existing position's expiry additively, or creates the position.
    pub fn mint_vip_share(&mut self, tmps: Timestamp, to: AccountId, address: Address)
        requires
            old(self).wf(),
            match assoc_get(old(self).vip_shares@, to) {
                Some(p) => p.expiry + tmps <= u64::MAX,
                None => true,
            },
        ensures
            final(self).wf(),
            final(self).vip_shares@ == vip_after_mint(old(self).vip_shares@, tmps, to, address),
            final(self).pledge_shares@ == old(self).pledge_shares@,
            final(self).info == old(self).info,
    {
        let cur = self.vip_shares.get(to);
        match cur {
            Some(p) => {
                let bumped = VipPosition {
                    address: p.address,
                    expiry: p.expiry + tmps,
                    unclaimed_reward: p.unclaimed_reward,
                };
                self.vip_shares.upsert(to, bumped);
            },
            None => {
                let fresh = VipPosition { address, expiry: tmps, unclaimed_reward: Quantity::zero() };
                self.vip_shares.upsert(to, fresh);
            },
        }
    }

    /// Claims `caller`'s accrued VIP reward: zeroes it, prunes the position
    /// when it is already expired, and counts the payout as minted. Returns
    /// the amount owed to the caller, or `NoUnclaimedReward` if nothing has
    /// accrued (including when no position exists), leaving the state
    /// untouched.
    pub fn claim_vip_reward(&mut self, caller: AccountId, now: Timestamp) -> (r: Result<
        E8s,
        SatslinkerError,
    >)
        requires
            old(self).wf(),
            old(self).info.total_token_minted.units + (match vip_claim_outcome(
                old(self).vip_shares@,
                caller,
            ) {
                Some(a) => a as int,
                None => 0,
            }) <= u128::MAX,
        ensures
            final(self).wf(),
            r == (match vip_claim_outcome(old(self).vip_shares@, caller) {
                Some(a) => Ok::<E8s, SatslinkerError>(Quantity { units: a }),
                None => Err::<E8s, SatslinkerError>(SatslinkerError::NoUnclaimedReward),
            }),
            final(self).vip_shares@ == vip_after_claim(old(self).vip_shares@, caller, now),
            final(self).pledge_shares@ == old(self).pledge_shares@,
            final(self).info.total_token_minted.units == old(self).info.total_token_minted.units
                + (match vip_claim_outcome(old(self).vip_shares@, caller) {
                Some(a) => a as int,
                None => 0,
            }),
            final(self).info == (SatslinkerStateInfo {
                total_token_minted: final(self).info.total_token_minted,
                ..old(self).info
            }),
    {
        let cur = self.vip_shares.get(caller);
        match cur {
            Some(p) => {
                if p.unclaimed_reward.units == 0 {
                    return Err(SatslinkerError::NoUnclaimedReward);
                }
                if now >= p.expiry {
                    self.vip_shares.remove_key(caller);
                } else {
                    let zeroed = VipPosition {
                        address: p.address,
                        expiry: p.expiry,
                        unclaimed_reward: Quantity::zero(),
                    };
                    self.vip_shares.upsert(caller, zeroed);
                }
                self.info.total_token_minted = self.info.total_token_minted.plus(
                    p.unclaimed_reward,
                );
                Ok(p.unclaimed_reward)
            },
            None => Err(SatslinkerError::NoUnclaimedReward),
        }
    }

    /// Compensates a failed VIP payout transfer: re-credits the amount onto
    /// the caller's position (recreating it if it was pruned) and takes the
    /// amount back out of the minted total.
    pub fn revert_claim_vip_reward(&mut self, caller: AccountId, unclaimed_reward: E8s)
        requires
            old(self).wf(),
            match assoc_get(old(self).vip_shares@, caller) {
                Some(p) => p.unclaimed_reward.units + unclaimed_reward.units <= u128::MAX,
                None => true,
            },
        ensures
            final(self).wf(),
            vip_revert_rel(
                old(self).vip_shares@,
                caller,
                unclaimed_reward.units,
                final(self).vip_shares@,
            ),
            final(self).pledge_shares@ == old(self).pledge_shares@,
            final(self).info.total_token_minted.units == if old(self).info.total_token_minted.units >= unclaimed_reward.units {
                old(self).info.total_token_minted.units - unclaimed_reward.units
            } else {
                0
            },
            final(self).info == (SatslinkerStateInfo {
                total_token_minted: final(self).info.total_token_minted,
                ..old(self).info
            }),
    {
        self.info.total_token_minted = self.info.total_token_minted.saturating_minus(
            unclaimed_reward,
        );
        let cur = self.vip_shares.get(caller);
        match cur {
            Some(p) => {
                let bumped = VipPosition {
                    address: p.address,
                    expiry: p.expiry,
                    unclaimed_reward: p.unclaimed_reward.plus(unclaimed_reward),
                };
                self.vip_shares.upsert(caller, bumped);
            },
            None => {
                let fresh = VipPosition {
                    address: zero_address(),
                    expiry: 0,
                    unclaimed_reward,
                };
                self.vip_shares.upsert(caller, fresh);
            },
        }
    }

    /// Pledges `qty` more reward tokens for `to`, restarting the lock
    /// window. The position (and the global supply) is only touched when the
    /// merged amount reaches the fee threshold: a sub-threshold pledge is
    /// accepted by the surrounding transfer but deliberately not recorded.
    pub fn mint_pledge_share(&mut self, qty: E8s, pledge_time: Timestamp, to: AccountId)
        requires
            old(self).wf(),
            old(self).info.total_pledge_token_supply.units + qty.units
                <= MAX_PLEDGE_SUPPLY_UNITS,
        ensures
            final(self).wf(),
            final(self).pledge_shares@ == pledge_after_mint(
                old(self).pledge_shares@,
                qty.units,
                pledge_time,
                to,
            ),
            final(self).vip_shares@ == old(self).vip_shares@,
            final(self).info.total_pledge_token_supply.units == old(self).info.total_pledge_token_supply.units + (if pledge_mint_recorded(
                old(self).pledge_shares@,
                qty.units,
                to,
            ) {
                qty.units as int
            } else {
                0
            }),
            final(self).info == (SatslinkerStateInfo {
                total_pledge_token_supply: final(self).info.total_pledge_token_supply,
                ..old(self).info
            }),
    {
        let fee_units: u128 = TCYCLE_POS_ROUND_BASE_FEE as u128 / 10_000;
        let cur = self.pledge_shares.get(to);
        let ghost s0 = self.pledge_shares@;
        match cur {
            Some(p) => {
                proof {
                    lemma_assoc_get_le_sum(s0, to, pledge_amount_proj());
                    lemma_assoc_sum_nonneg(s0, pledge_amount_proj());
                }
                let merged_units = p.amount.units + qty.units;
                if merged_units >= fee_units {
                    let merged = PledgePosition {
                        amount: Quantity::new(merged_units),
                        pledge_time,
                        unclaimed_reward: p.unclaimed_reward,
                    };
                    proof {
                        lemma_assoc_sum_set(s0, to, merged, pledge_amount_proj());
                        lemma_assoc_set_unique(s0, to, merged);
                    }
                    self.pledge_shares.upsert(to, merged);
                    self.info.total_pledge_token_supply =
                        self.info.total_pledge_token_supply.plus(qty);
                }
            },
            None => {
                if qty.units >= fee_units {
                    let fresh = PledgePosition {
                        amount: qty,
                        pledge_time,
                        unclaimed_reward: Quantity::zero(),
                    };
                    proof {
                        lemma_assoc_sum_push(s0, (to, fresh), pledge_amount_proj());
                        lemma_assoc_push_unique(s0, to, fresh);
                    }
                    self.pledge_shares.upsert(to, fresh);
                    self.info.total_pledge_token_supply =
                        self.info.total_pledge_token_supply.plus(qty);
                }
            },
        }
    }

    /// Claims `caller`'s accrued pledge reward: zeroes it, prunes a position
    /// whose amount is below the fee threshold (releasing it from the
    /// supply), and counts the payout as minted. `NoUnclaimedReward` when
    /// nothing has accrued; the state is then untouched.
    pub fn claim_pledge_reward(&mut self, caller: AccountId) -> (r: Result<E8s, SatslinkerError>)
        requires
            old(self).wf(),
            old(self).info.total_token_minted.units + (match pledge_claim_outcome(
                old(self).pledge_shares@,
                caller,
            ) {
                Some(a) => a as int,
                None => 0,
            }) <= u128::MAX,
        ensures
            final(self).wf(),
            r == (match pledge_claim_outcome(old(self).pledge_shares@, caller) {
                Some(a) => Ok::<E8s, SatslinkerError>(Quantity { units: a }),
                None => Err::<E8s, SatslinkerError>(SatslinkerError::NoUnclaimedReward),
            }),
            final(self).pledge_shares@ == pledge_after_claim(old(self).pledge_shares@, caller),
            final(self).vip_shares@ == old(self).vip_shares@,
            final(self).info.total_token_minted.units == old(self).info.total_token_minted.units
                + (match pledge_claim_outcome(old(self).pledge_shares@, caller) {
                Some(a) => a as int,
                None => 0,
            }),
            final(self).info.total_pledge_token_supply.units == old(self).info.total_pledge_token_supply.units - pledge_claim_released(
                old(self).pledge_shares@,
                caller,
            ),
            final(self).info == (SatslinkerStateInfo {
                total_token_minted: final(self).info.total_token_minted,
                total_pledge_token_supply: final(self).info.total_pledge_token_supply,
                ..old(self).info
            }),
    {
        let fee_units: u128 = TCYCLE_POS_ROUND_BASE_FEE as u128 / 10_000;
        let cur = self.pledge_shares.get(caller);
        let ghost s0 = self.pledge_shares@;
        match cur {
            Some(p) => {
                if p.unclaimed_reward.units == 0 {
                    return Err(SatslinkerError::NoUnclaimedReward);
                }
                if p.amount.units < fee_units {
                    proof {
                        lemma_assoc_sum_remove(s0, caller, pledge_amount_proj());
                        lemma_assoc_remove_unique(s0, caller);
                        lemma_assoc_get_le_sum(s0, caller, pledge_amount_proj());
                        lemma_assoc_sum_nonneg(s0, pledge_amount_proj());
                    }
                    self.pledge_shares.remove_key(caller);
                    self.info.total_pledge_token_supply =
                        self.info.total_pledge_token_supply.saturating_minus(p.amount);
                    proof {
                        lemma_assoc_sum_nonneg(
                            assoc_remove(s0, caller),
                            pledge_amount_proj(),
                        );
                    }
                } else {
                    let zeroed = PledgePosition {
                        amount: p.amount,
                        pledge_time: p.pledge_time,
                        unclaimed_reward: Quantity::zero(),
                    };
                    proof {
                        lemma_assoc_sum_set(s0, caller, zeroed, pledge_amount_proj());
                        lemma_assoc_set_unique(s0, caller, zeroed);
                    }
                    self.pledge_shares.upsert(caller, zeroed);
                }
                self.info.total_token_minted = self.info.total_token_minted.plus(
                    p.unclaimed_reward,
                );
                Ok(p.unclaimed_reward)
            },
            None => Err(SatslinkerError::NoUnclaimedReward),
        }
    }

    /// Compensates a failed pledge payout transfer: re-credits the amount
    /// onto the caller's position (recreating an empty one if it was pruned)
    /// and takes the amount back out of the minted total.
    pub fn revert_claim_pledge_reward(&mut self, caller: AccountId, unclaimed_reward: E8s)
        requires
            old(self).wf(),
            match assoc_get(old(self).pledge_shares@, caller) {
                Some(p) => p.unclaimed_reward.units + unclaimed_reward.units <= u128::MAX,
                None => true,
            },
        ensures
            final(self).wf(),
            final(self).pledge_shares@ == pledge_after_revert(
                old(self).pledge_shares@,
                caller,
                unclaimed_reward.units,
            ),
            final(self).vip_shares@ == old(self).vip_shares@,
            final(self).info.total_token_minted.units == if old(self).info.total_token_minted.units >= unclaimed_reward.units {
                old(self).info.total_token_minted.units - unclaimed_reward.units
            } else {
                0
            },
            final(self).info == (SatslinkerStateInfo {
                total_token_minted: final(self).info.total_token_minted,
                ..old(self).info
            }),
    {
        self.info.total_token_minted = self.info.total_token_minted.saturating_minus(
            unclaimed_reward,
        );
        let cur = self.pledge_shares.get(caller);
        let ghost s0 = self.pledge_shares@;
        match cur {
            Some(p) => {
                let bumped = PledgePosition {
                    amount: p.amount,
                    pledge_time: p.pledge_time,
                    unclaimed_reward: p.unclaimed_reward.plus(unclaimed_reward),
                };
                proof {
                    lemma_assoc_sum_set(s0, caller, bumped, pledge_amount_proj());
                    lemma_assoc_set_unique(s0, caller, bumped);
                }
                self.pledge_shares.upsert(caller, bumped);
            },
            None => {
                let fresh = PledgePosition {
                    amount: Quantity::zero(),
                    pledge_time: 0,
                    unclaimed_reward,
                };
                proof {
                    lemma_assoc_sum_push(s0, (caller, fresh), pledge_amount_proj());
                    lemma_assoc_push_unique(s0, caller, fresh);
                }
                self.pledge_shares.upsert(caller, fresh);
            },
        }
    }

    /// Redeems `caller`'s pledge principal once the lock-up window has
    /// elapsed: removes the position, releases its amount from the supply
    /// and returns the principal for the external transfer.
    /// `NotYetUnlocked` before the window elapses; `InsufficientAmount`
    /// when nothing is pledged. Failures leave the state untouched.
    pub fn redeem_pledge(&mut self, caller: AccountId, now: Timestamp) -> (r: Result<
        E8s,
        SatslinkerError,
    >)
        requires
            old(self).wf(),
        ensures
            final(self).wf(),
            r == (match assoc_get(old(self).pledge_shares@, caller) {
                Some(p) => if pledge_unlocked(p, now) {
                    Ok::<E8s, SatslinkerError>(p.amount)
                } else {
                    Err::<E8s, SatslinkerError>(SatslinkerError::NotYetUnlocked)
                },
                None => Err::<E8s, SatslinkerError>(SatslinkerError::InsufficientAmount),
            }),
            final(self).pledge_shares@ == (match assoc_get(old(self).pledge_shares@, caller) {
                Some(p) => if pledge_unlocked(p, now) {
                    assoc_remove(old(self).pledge_shares@, caller)
                } else {
                    old(self).pledge_shares@
                },
                None => old(self).pledge_shares@,
            }),
            final(self).vip_shares@ == old(self).vip_shares@,
            final(self).info.total_pledge_token_supply.units == old(self).info.total_pledge_token_supply.units - (match assoc_get(
                old(self).pledge_shares@,
                caller,
            ) {
                Some(p) => if pledge_unlocked(p, now) {
                    p.amount.units as int
                } else {
                    0
                },
                None => 0,
            }),
            final(self).info == (SatslinkerStateInfo {
                total_pledge_token_supply: final(self).info.total_pledge_token_supply,
                ..old(self).info
            }),
    {
        let cur = self.pledge_shares.get(caller);
        let ghost s0 = self.pledge_shares@;
        match cur {
            Some(p) => {
                if (now as u128) < (p.pledge_time as u128) + (PLEDGE_ROUND_DELAY_NS as u128) {
                    return Err(SatslinkerError::NotYetUnlocked);
                }
                proof {
                    lemma_assoc_sum_remove(s0, caller, pledge_amount_proj());
                    lemma_assoc_remove_unique(s0, caller);
                    lemma_assoc_get_le_sum(s0, caller, pledge_amount_proj());
                    lemma_assoc_sum_nonneg(assoc_remove(s0, caller), pledge_amount_proj());
                }
                self.pledge_shares.remove_key(caller);
                self.info.total_pledge_token_supply =
                    self.info.total_pledge_token_supply.saturating_minus(p.amount);
                Ok(p.amount)
            },
            None => Err(SatslinkerError::InsufficientAmount),
        }
    }

    /// Moves `caller`'s positions onto `to`, additively, and spends the
    /// caller's one-time migration permission in both allow-lists, so a
    /// second attempt fails deterministically. `AccessDenied` unless the
    /// caller is present in both lists; a refusal leaves the state
    /// untouched.
    pub fn migrate_satslinker_account(&mut self, caller: AccountId, to: AccountId) -> (r: Result<
        (),
        SatslinkerError,
    >)
        requires
            old(self).wf(),
            migrate_fits(*old(self), caller, to),
        ensures
            final(self).wf(),
            r == (if old(self).info.tmp_can_vip_migrate is Some
                && old(self).info.tmp_can_vip_migrate->0@.contains(caller) && old(self).info.tmp_can_pledge_migrate is Some && old(self).info.tmp_can_pledge_migrate->0@.contains(caller) {
                Ok::<(), SatslinkerError>(())
            } else {
                Err::<(), SatslinkerError>(SatslinkerError::AccessDenied)
            }),
            r is Err ==> *final(self) == *old(self),
            r is Ok ==> {
                &&& final(self).vip_shares@ == vip_after_migrate(old(self).vip_shares@, caller, to)
                &&& final(self).pledge_shares@ == pledge_after_migrate(
                    old(self).pledge_shares@,
                    caller,
                    to,
                )
                &&& final(self).info.tmp_can_vip_migrate is Some
                &&& final(self).info.tmp_can_vip_migrate->0@ == crate::info::ids_without(
                    old(self).info.tmp_can_vip_migrate->0@,
                    caller,
                )
                &&& final(self).info.tmp_can_pledge_migrate is Some
                &&& final(self).info.tmp_can_pledge_migrate->0@ == crate::info::ids_without(
                    old(self).info.tmp_can_pledge_migrate->0@,
                    caller,
                )
                &&& final(self).info == (SatslinkerStateInfo {
                    tmp_can_vip_migrate: final(self).info.tmp_can_vip_migrate,
                    tmp_can_pledge_migrate: final(self).info.tmp_can_pledge_migrate,
                    ..old(self).info
                })
            },
    {
        let can_vip = self.info.can_vip_migrate(&caller);
        let can_pledge = self.info.can_pledge_migrate(&caller);
        if !can_vip || !can_pledge {
            return Err(SatslinkerError::AccessDenied);
        }
        let ghost v0 = self.vip_shares@;
        let removed_vip = self.vip_shares.remove_key(caller);
        proof {
            if !assoc_contains(v0, caller) {
                crate::store::lemma_assoc_remove_absent(v0, caller);
            }
        }
        match removed_vip {
            Some(p1) => {
                let dest = self.vip_shares.get(to);
                let merged = match dest {
                    Some(p2) => VipPosition {
                        address: p2.address,
                        expiry: p1.expiry + p2.expiry,
                        unclaimed_reward: p1.unclaimed_reward.plus(p2.unclaimed_reward),
                    },
                    None => p1,
                };
                self.vip_shares.upsert(to, merged);
            },
            None => {},
        }
        let ghost s0 = self.pledge_shares@;
        let removed_pledge = self.pledge_shares.remove_key(caller);
        proof {
            if assoc_contains(s0, caller) {
                lemma_assoc_sum_remove(s0, caller, pledge_amount_proj());
            } else {
                crate::store::lemma_assoc_remove_absent(s0, caller);
            }
            lemma_assoc_remove_unique(s0, caller);
        }
        match removed_pledge {
            Some(q1) => {
                let ghost s1 = self.pledge_shares@;
                let dest = self.pledge_shares.get(to);
                match dest {
                    Some(q2) => {
                        proof {
                            lemma_assoc_get_le_sum(s0, caller, pledge_amount_proj());
                            lemma_assoc_get_le_sum(s1, to, pledge_amount_proj());
                            lemma_assoc_sum_nonneg(s1, pledge_amount_proj());
                            lemma_assoc_sum_nonneg(s0, pledge_amount_proj());
                        }
                        let merged = PledgePosition {
                            amount: q1.amount.plus(q2.amount),
                            pledge_time: q1.pledge_time + q2.pledge_time,
                            unclaimed_reward: q1.unclaimed_reward.plus(q2.unclaimed_reward),
                        };
                        proof {
                            lemma_assoc_sum_set(s1, to, merged, pledge_amount_proj());
                            lemma_assoc_set_unique(s1, to, merged);
                        }
                        self.pledge_shares.upsert(to, merged);
                    },
                    None => {
                        proof {
                            lemma_assoc_sum_push(s1, (to, q1), pledge_amount_proj());
                            lemma_assoc_push_unique(s1, to, q1);
                        }
                        self.pledge_shares.upsert(to, q1);
                    },
                }
            },
            None => {},
        }
        self.info.note_vip_migrated(&caller);
        self.info.note_pledge_migrated(&caller);
        Ok(())
    }
}

} // verus!
