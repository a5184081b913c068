//! The engine's cross-operation guarantees, each proved once and for all
//! over the spec-level transitions that the operations' contracts are stated
//! with.

use vstd::prelude::*;
use crate::state::{
    SatslinkerState,
    pledge_after_claim,
    pledge_after_revert,
    pledge_claim_outcome,
    pledge_sum,
    share_fee_units,
    vip_after_claim,
    vip_claim_outcome,
    vip_revert_rel,
};
use crate::store::{
    assoc_get,
    assoc_contains,
    keys_unique,
    lemma_assoc_get_push,
    lemma_assoc_get_remove,
    lemma_assoc_get_set,
};
use crate::info::ids_without;
use crate::round::{vip_active_count, vip_after_distribute, vip_keep, vip_per_account};
use crate::types::{PledgePosition, VipPosition};

verus! {

/// Conservation: in every well-formed state the recorded pledge supply
/// equals the sum of the live pledge positions' amounts. Together with the
/// operations' contracts — each requires a well-formed state and ensures one
/// — the equality holds at every observation point of every sequence of
/// mints, claims, redeems, reverts, migrations and rounds.
pub proof fn lemma_pledge_conservation(s: SatslinkerState)
    requires
        s.wf(),
    ensures
        s.info.total_pledge_token_supply.units as int == pledge_sum(s.pledge_shares@),
{
}

/// No double claim (VIP): a claim that paid out leaves the position with
/// nothing accrued, so an immediately following claim pays nothing and, by
/// the claim contract, returns `NoUnclaimedReward`.
pub proof fn lemma_no_double_claim_vip(v: Seq<(u64, VipPosition)>, caller: u64, now: u64)
    requires
        keys_unique(v),
        vip_claim_outcome(v, caller) is Some,
    ensures
        vip_claim_outcome(vip_after_claim(v, caller, now), caller) is None,
{
    let p = assoc_get(v, caller)->Some_0;
    if now >= p.expiry {
        lemma_assoc_get_remove(v, caller, caller);
    } else {
        let zeroed = VipPosition { unclaimed_reward: crate::qty::Quantity { units: 0 }, ..p };
        lemma_assoc_get_set(v, caller, zeroed, caller);
    }
}

/// No double claim (pledge): as for VIP positions.
pub proof fn lemma_no_double_claim_pledge(s: Seq<(u64, PledgePosition)>, caller: u64)
    requires
        keys_unique(s),
        pledge_claim_outcome(s, caller) is Some,
    ensures
        pledge_claim_outcome(pledge_after_claim(s, caller), caller) is None,
{
    let p = assoc_get(s, caller)->Some_0;
    if p.amount.units < share_fee_units() {
        lemma_assoc_get_remove(s, caller, caller);
    } else {
        let zeroed = PledgePosition { unclaimed_reward: crate::qty::Quantity { units: 0 }, ..p };
        lemma_assoc_get_set(s, caller, zeroed, caller);
    }
}

/// Revert restores (VIP): after a claim whose transfer failed and was
/// reverted, the caller's unclaimed reward, every other position, and the
/// minted total are numerically identical to their pre-claim values.
pub proof fn lemma_revert_restores_vip(
    v0: Seq<(u64, VipPosition)>,
    v2: Seq<(u64, VipPosition)>,
    caller: u64,
    now: u64,
    minted0: u128,
)
    requires
        keys_unique(v0),
        vip_claim_outcome(v0, caller) is Some,
        minted0 + vip_claim_outcome(v0, caller)->Some_0 <= u128::MAX,
        vip_revert_rel(
            vip_after_claim(v0, caller, now),
            caller,
            vip_claim_outcome(v0, caller)->Some_0,
            v2,
        ),
    ensures
        assoc_get(v2, caller) is Some,
        assoc_get(v2, caller)->Some_0.unclaimed_reward == assoc_get(
            v0,
            caller,
        )->Some_0.unclaimed_reward,
        forall|k: u64|
            k != caller ==> #[trigger] assoc_get(v2, k) == assoc_get(v0, k),
        ({
            let a = vip_claim_outcome(v0, caller)->Some_0;
            let minted1 = (minted0 + a) as u128;
            (if minted1 >= a {
                (minted1 - a) as u128
            } else {
                0u128
            }) == minted0
        }),
{
    let p = assoc_get(v0, caller)->Some_0;
    let a = p.unclaimed_reward.units;
    let v1 = vip_after_claim(v0, caller, now);
    if now >= p.expiry {
        assert forall|k: u64| true implies #[trigger] assoc_get(v1, k) == (if k == caller {
            None
        } else {
            assoc_get(v0, k)
        }) by {
            lemma_assoc_get_remove(v0, caller, k);
        }
        let w = choose|w: VipPosition|
            v2 == #[trigger] v1.push((caller, w)) && w.expiry == 0 && w.unclaimed_reward.units
                == a;
        assert forall|k: u64| true implies #[trigger] assoc_get(v2, k) == (if k == caller {
            Some(w)
        } else {
            assoc_get(v0, k)
        }) by {
            lemma_assoc_get_push(v1, (caller, w), k);
        }
    } else {
        let zeroed = VipPosition { unclaimed_reward: crate::qty::Quantity { units: 0 }, ..p };
        assert forall|k: u64| true implies #[trigger] assoc_get(v1, k) == (if k == caller {
            Some(zeroed)
        } else {
            assoc_get(v0, k)
        }) by {
            lemma_assoc_get_set(v0, caller, zeroed, k);
        }
        let restored = VipPosition {
            unclaimed_reward: crate::qty::Quantity { units: (0 + a) as u128 },
            ..zeroed
        };
        assert forall|k: u64| true implies #[trigger] assoc_get(v2, k) == (if k == caller {
            Some(restored)
        } else {
            assoc_get(v1, k)
        }) by {
            lemma_assoc_get_set(v1, caller, restored, k);
        }
    }
}

/// Revert restores (pledge): as for VIP claims.
pub proof fn lemma_revert_restores_pledge(
    s0: Seq<(u64, PledgePosition)>,
    caller: u64,
    minted0: u128,
)
    requires
        keys_unique(s0),
        pledge_claim_outcome(s0, caller) is Some,
        minted0 + pledge_claim_outcome(s0, caller)->Some_0 <= u128::MAX,
    ensures
        ({
            let a = pledge_claim_outcome(s0, caller)->Some_0;
            let s2 = pledge_after_revert(pledge_after_claim(s0, caller), caller, a);
            &&& assoc_get(s2, caller) is Some
            &&& assoc_get(s2, caller)->Some_0.unclaimed_reward == assoc_get(
                s0,
                caller,
            )->Some_0.unclaimed_reward
            &&& forall|k: u64|
                k != caller ==> #[trigger] assoc_get(s2, k) == assoc_get(s0, k)
            &&& ({
                let minted1 = (minted0 + a) as u128;
                (if minted1 >= a {
                    (minted1 - a) as u128
                } else {
                    0u128
                }) == minted0
            })
        }),
{
    let p = assoc_get(s0, caller)->Some_0;
    let a = p.unclaimed_reward.units;
    let s1 = pledge_after_claim(s0, caller);
    let s2 = pledge_after_revert(s1, caller, a);
    if p.amount.units < share_fee_units() {
        assert forall|k: u64| true implies #[trigger] assoc_get(s1, k) == (if k == caller {
            None
        } else {
            assoc_get(s0, k)
        }) by {
            lemma_assoc_get_remove(s0, caller, k);
        }
        let fresh = PledgePosition {
            amount: crate::qty::Quantity { units: 0 },
            pledge_time: 0,
            unclaimed_reward: crate::qty::Quantity { units: a },
        };
        assert(s2 == s1.push((caller, fresh)));
        assert forall|k: u64| true implies #[trigger] assoc_get(s2, k) == (if k == caller {
            Some(fresh)
        } else {
            assoc_get(s0, k)
        }) by {
            lemma_assoc_get_push(s1, (caller, fresh), k);
        }
    } else {
        let zeroed = PledgePosition { unclaimed_reward: crate::qty::Quantity { units: 0 }, ..p };
        assert forall|k: u64| true implies #[trigger] assoc_get(s1, k) == (if k == caller {
            Some(zeroed)
        } else {
            assoc_get(s0, k)
        }) by {
            lemma_assoc_get_set(s0, caller, zeroed, k);
        }
        let restored = PledgePosition {
            unclaimed_reward: crate::qty::Quantity { units: (0 + a) as u128 },
            ..zeroed
        };
        assert forall|k: u64| true implies #[trigger] assoc_get(s2, k) == (if k == caller {
            Some(restored)
        } else {
            assoc_get(s1, k)
        }) by {
            lemma_assoc_get_set(s1, caller, restored, k);
        }
    }
}

/// Migration single use: a successful migration removes the caller from
/// both allow-lists, so the guard a second call checks — presence in both —
/// fails and, by the migration contract, the second call returns
/// `AccessDenied`.
pub proof fn lemma_migration_single_use(
    vip_list: Seq<u64>,
    pledge_list: Seq<u64>,
    caller: u64,
)
    ensures
        !ids_without(vip_list, caller).contains(caller),
        !ids_without(pledge_list, caller).contains(caller),
{
    crate::info::lemma_ids_without_props(vip_list, caller);
    crate::info::lemma_ids_without_props(pledge_list, caller);
}

proof fn lemma_vip_count_nonneg(s: Seq<(u64, VipPosition)>, now: u64)
    ensures
        0 <= vip_active_count(s, now),
    decreases s.len(),
{
    if s.len() > 0 {
        lemma_vip_count_nonneg(s.drop_first(), now);
    }
}

/// With no active VIP position the round's VIP share is dropped: the
/// per-position payout is zero and the store comes out of the round empty —
/// the share moves to no other pool, whose contracts each name their own
/// cut of the reward and nothing more.
pub proof fn lemma_vip_share_dropped(
    s: Seq<(u64, VipPosition)>,
    now: u64,
    reward: int,
    per: u128,
)
    requires
        vip_active_count(s, now) == 0,
    ensures
        vip_per_account(s, now, reward) == 0,
        vip_after_distribute(s, now, per).len() == 0,
    decreases s.len(),
{
    if s.len() > 0 {
        lemma_vip_count_nonneg(s.drop_first(), now);
        assert(!vip_keep(s[0].1, now));
        lemma_vip_share_dropped(s.drop_first(), now, reward, per);
    }
}

} // verus!
