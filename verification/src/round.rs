//! The round-based distribution engine.
//!
//! Once per round the per-round reward is split by protocol-fixed
//! percentages — lottery 10%, VIP pool 50%, pledge pool 37.5%, developer
//! 2.5% — the VIP share is divided evenly across active VIP positions, the
//! pledge share pro-rata by pledged amount across unexpired pledges, and the
//! two accumulator pools grow until they are flushed by an external
//! transfer. A share whose pool has no participants is dropped for the
//! round, never carried over. Division always truncates; the dust stays
//! unminted.

use vstd::prelude::*;
use crate::qty::{E8s, Quantity};
use crate::store::{
    KvVec,
    assoc_get,
    assoc_sum,
    keys_unique,
    lemma_assoc_get_absent,
    lemma_assoc_absent_no_index,
};
use crate::types::{
    PledgePosition,
    Timestamp,
    VipPosition,
    MAX_PLEDGE_SUPPLY_UNITS,
    PLEDGE_ROUND_DELAY_NS,
    POS_ROUND_START_REWARD_E8S,
};
use crate::state::{SatslinkerState, pledge_amount_proj, pledge_sum};
use crate::info::SatslinkerStateInfo;

verus! {

/// Whether a VIP position survives the round: expired positions with
/// nothing left to claim are pruned, all others stay and earn.
pub open spec fn vip_keep(p: VipPosition, now: u64) -> bool {
    !(now >= p.expiry && p.unclaimed_reward.units == 0)
}

/// How many VIP positions survive the round and share the VIP pool.
pub open spec fn vip_active_count(s: Seq<(u64, VipPosition)>, now: u64) -> int
    decreases s.len(),
{
    if s.len() == 0 {
        0
    } else {
        (if vip_keep(s[0].1, now) {
            1int
        } else {
            0int
        }) + vip_active_count(s.drop_first(), now)
    }
}

/// A VIP position with `per` more reward units accrued.
pub open spec fn vip_bump(p: VipPosition, per: u128) -> VipPosition {
    VipPosition { unclaimed_reward: Quantity { units: (p.unclaimed_reward.units + per) as u128 }, ..p }
}

/// The VIP store after a round: pruned positions gone, surviving ones each
/// `per` units richer.
pub open spec fn vip_after_distribute(s: Seq<(u64, VipPosition)>, now: u64, per: u128) -> Seq<
    (u64, VipPosition),
>
    decreases s.len(),
{
    if s.len() == 0 {
        s
    } else {
        let rest = vip_after_distribute(s.drop_first(), now, per);
        if vip_keep(s[0].1, now) {
            seq![(s[0].0, vip_bump(s[0].1, per))] + rest
        } else {
            rest
        }
    }
}

/// The VIP pool: half the per-round reward.
pub open spec fn vip_pool_units(reward: int) -> int {
    reward * 500 / 1000
}

/// The even per-position VIP payout: the pool divided by the number of
/// surviving positions, zero when there is none (the share is dropped).
pub open spec fn vip_per_account(s: Seq<(u64, VipPosition)>, now: u64, reward: int) -> int {
    let c = vip_active_count(s, now);
    if c == 0 {
        0
    } else {
        vip_pool_units(reward) / c
    }
}

/// Whether a pledge's earning window is over at `now`.
pub open spec fn pledge_expired(p: PledgePosition, now: u64) -> bool {
    now >= p.pledge_time + PLEDGE_ROUND_DELAY_NS
}

/// Total pledged amount of the positions still earning at `now`.
pub open spec fn pledge_valid_sum(s: Seq<(u64, PledgePosition)>, now: u64) -> int
    decreases s.len(),
{
    if s.len() == 0 {
        0
    } else {
        (if pledge_expired(s[0].1, now) {
            0int
        } else {
            s[0].1.amount.units as int
        }) + pledge_valid_sum(s.drop_first(), now)
    }
}

/// The pledge pool: 37.5% of the per-round reward.
pub open spec fn pledge_pool_units(reward: int) -> int {
    reward * 375 / 1000
}

/// A pledge position with its pro-rata cut of the pool accrued:
/// `pool * amount / total`, truncated; zero when no amount is earning.
pub open spec fn pledge_bump(p: PledgePosition, pool: int, tot: int) -> PledgePosition {
    let cut = if tot > 0 {
        pool * (p.amount.units as int) / tot
    } else {
        0
    };
    PledgePosition {
        unclaimed_reward: Quantity { units: (p.unclaimed_reward.units + cut) as u128 },
        ..p
    }
}

/// The pledge store after a round: expired positions gone, surviving ones
/// holding their pro-rata cut.
pub open spec fn pledge_after_distribute(
    s: Seq<(u64, PledgePosition)>,
    now: u64,
    pool: int,
    tot: int,
) -> Seq<(u64, PledgePosition)>
    decreases s.len(),
{
    if s.len() == 0 {
        s
    } else {
        let rest = pledge_after_distribute(s.drop_first(), now, pool, tot);
        if pledge_expired(s[0].1, now) {
            rest
        } else {
            seq![(s[0].0, pledge_bump(s[0].1, pool, tot))] + rest
        }
    }
}

/// Headroom for one round of VIP accrual: no reward so close to the carrier
/// limit that one round's payout could overflow it.
pub open spec fn vip_headroom(s: Seq<(u64, VipPosition)>) -> bool {
    forall|i: int|
        0 <= i < s.len() ==> (#[trigger] s[i]).1.unclaimed_reward.units <= u128::MAX
            - POS_ROUND_START_REWARD_E8S
}

/// Headroom for one round of pledge accrual.
pub open spec fn pledge_headroom(s: Seq<(u64, PledgePosition)>) -> bool {
    forall|i: int|
        0 <= i < s.len() ==> (#[trigger] s[i]).1.unclaimed_reward.units <= u128::MAX
            - POS_ROUND_START_REWARD_E8S
}

/// A quantity shrinks when multiplied by a sub-unit ratio and truncated.
pub proof fn lemma_ratio_le(x: int, num: int, den: int)
    requires
        0 <= x,
        0 <= num <= den,
        0 < den,
    ensures
        x * num / den <= x,
{
    vstd::arithmetic::mul::lemma_mul_inequality(num, den, x);
    vstd::arithmetic::mul::lemma_mul_is_commutative(num, x);
    vstd::arithmetic::mul::lemma_mul_is_commutative(den, x);
    vstd::arithmetic::div_mod::lemma_div_is_ordered(x * num, x * den, den);
    vstd::arithmetic::div_mod::lemma_div_by_multiple(x, den);
}

proof fn lemma_vip_count_push(s: Seq<(u64, VipPosition)>, p: (u64, VipPosition), now: u64)
    ensures
        vip_active_count(s.push(p), now) == vip_active_count(s, now) + (if vip_keep(p.1, now) {
            1int
        } else {
            0int
        }),
    decreases s.len(),
{
    if s.len() == 0 {
        assert(s.push(p)[0] == p);
        assert(s.push(p).drop_first() =~= Seq::<(u64, VipPosition)>::empty());
        assert(vip_active_count(Seq::<(u64, VipPosition)>::empty(), now) == 0);
    } else {
        lemma_vip_count_push(s.drop_first(), p, now);
        assert(s.push(p)[0] == s[0]);
        assert(s.push(p).drop_first() =~= s.drop_first().push(p));
    }
}

proof fn lemma_vip_distribute_push(
    s: Seq<(u64, VipPosition)>,
    p: (u64, VipPosition),
    now: u64,
    per: u128,
)
    ensures
        vip_after_distribute(s.push(p), now, per) == vip_after_distribute(s, now, per) + (if vip_keep(
            p.1,
            now,
        ) {
            seq![(p.0, vip_bump(p.1, per))]
        } else {
            Seq::<(u64, VipPosition)>::empty()
        }),
    decreases s.len(),
{
    if s.len() == 0 {
        assert(s.push(p)[0] == p);
        assert(s.push(p).drop_first() =~= Seq::<(u64, VipPosition)>::empty());
        assert(vip_after_distribute(Seq::<(u64, VipPosition)>::empty(), now, per) =~= Seq::<
            (u64, VipPosition),
        >::empty());
        if vip_keep(p.1, now) {
            assert(vip_after_distribute(s.push(p), now, per) =~= s + seq![(p.0, vip_bump(p.1, per))]);
            assert(s + seq![(p.0, vip_bump(p.1, per))] =~= vip_after_distribute(s, now, per) + seq![
                (p.0, vip_bump(p.1, per)),
            ]);
        } else {
            assert(vip_after_distribute(s.push(p), now, per) =~= vip_after_distribute(s, now, per)
                + Seq::<(u64, VipPosition)>::empty());
        }
    } else {
        lemma_vip_distribute_push(s.drop_first(), p, now, per);
        assert(s.push(p)[0] == s[0]);
        assert(s.push(p).drop_first() =~= s.drop_first().push(p));
        if vip_keep(s[0].1, now) {
            assert(vip_after_distribute(s.push(p), now, per) =~= vip_after_distribute(s, now, per)
                + (if vip_keep(p.1, now) {
                seq![(p.0, vip_bump(p.1, per))]
            } else {
                Seq::<(u64, VipPosition)>::empty()
            }));
        } else {
            assert(vip_after_distribute(s.push(p), now, per) =~= vip_after_distribute(s, now, per)
                + (if vip_keep(p.1, now) {
                seq![(p.0, vip_bump(p.1, per))]
            } else {
                Seq::<(u64, VipPosition)>::empty()
            }));
        }
    }
}

/// Distribution keeps keys distinct and acts pointwise: a key's position is
/// either pruned or bumped, and no key appears from nowhere.
proof fn lemma_vip_distribute_props(s: Seq<(u64, VipPosition)>, now: u64, per: u128)
    requires
        keys_unique(s),
    ensures
        keys_unique(vip_after_distribute(s, now, per)),
        forall|k: u64| #[trigger]
            assoc_get(vip_after_distribute(s, now, per), k) == (match assoc_get(s, k) {
                Some(p) => if vip_keep(p, now) {
                    Some(vip_bump(p, per))
                } else {
                    None
                },
                None => None,
            }),
    decreases s.len(),
{
    let t = vip_after_distribute(s, now, per);
    if s.len() == 0 {
        assert forall|k: u64| #[trigger] assoc_get(t, k) == None::<VipPosition> by {}
    } else {
        let h = s[0];
        let rest = vip_after_distribute(s.drop_first(), now, per);
        assert(keys_unique(s.drop_first())) by {
            assert(forall|j: int|
                0 <= j < s.drop_first().len() ==> s.drop_first()[j] == s[j + 1]);
        }
        lemma_vip_distribute_props(s.drop_first(), now, per);
        assert(assoc_get(s.drop_first(), h.0) is None) by {
            assert(forall|j: int|
                0 <= j < s.drop_first().len() ==> (#[trigger] s.drop_first()[j]).0 != h.0) by {
                assert(forall|j: int|
                    0 <= j < s.drop_first().len() ==> s.drop_first()[j] == s[j + 1]);
            }
            lemma_assoc_get_absent(s.drop_first(), h.0);
        }
        assert(assoc_get(rest, h.0) is None);
        lemma_assoc_absent_no_index(rest, h.0);
        if vip_keep(h.1, now) {
            assert(t =~= seq![(h.0, vip_bump(h.1, per))] + rest);
            assert(t[0] == (h.0, vip_bump(h.1, per)));
            assert(t.drop_first() =~= rest);
            assert(keys_unique(t)) by {
                assert(forall|j: int| 1 <= j < t.len() ==> #[trigger] t[j] == rest[j - 1]);
            }
            assert forall|k: u64| #[trigger]
                assoc_get(t, k) == (match assoc_get(s, k) {
                    Some(p) => if vip_keep(p, now) {
                        Some(vip_bump(p, per))
                    } else {
                        None
                    },
                    None => None,
                }) by {
                if k != h.0 {
                    assert(assoc_get(t, k) == assoc_get(rest, k));
                    assert(assoc_get(s, k) == assoc_get(s.drop_first(), k));
                }
            }
        } else {
            assert(t =~= rest);
            assert forall|k: u64| #[trigger]
                assoc_get(t, k) == (match assoc_get(s, k) {
                    Some(p) => if vip_keep(p, now) {
                        Some(vip_bump(p, per))
                    } else {
                        None
                    },
                    None => None,
                }) by {
                if k != h.0 {
                    assert(assoc_get(s, k) == assoc_get(s.drop_first(), k));
                }
            }
        }
    }
}

proof fn lemma_pledge_valid_sum_push(s: Seq<(u64, PledgePosition)>, p: (u64, PledgePosition), now: u64)
    ensures
        pledge_valid_sum(s.push(p), now) == pledge_valid_sum(s, now) + (if pledge_expired(
            p.1,
            now,
        ) {
            0int
        } else {
            p.1.amount.units as int
        }),
    decreases s.len(),
{
    if s.len() == 0 {
        assert(s.push(p)[0] == p);
        assert(s.push(p).drop_first() =~= Seq::<(u64, PledgePosition)>::empty());
        assert(pledge_valid_sum(Seq::<(u64, PledgePosition)>::empty(), now) == 0);
    } else {
        lemma_pledge_valid_sum_push(s.drop_first(), p, now);
        assert(s.push(p)[0] == s[0]);
        assert(s.push(p).drop_first() =~= s.drop_first().push(p));
    }
}

/// The earning total is between zero and the full pledged sum.
proof fn lemma_pledge_valid_sum_le(s: Seq<(u64, PledgePosition)>, now: u64)
    ensures
        0 <= pledge_valid_sum(s, now) <= pledge_sum(s),
    decreases s.len(),
{
    if s.len() == 0 {
        assert(assoc_sum(s, pledge_amount_proj()) == 0);
    } else {
        lemma_pledge_valid_sum_le(s.drop_first(), now);
        assert(pledge_sum(s) == pledge_amount_proj()(s[0].1) + pledge_sum(s.drop_first()));
    }
}

/// Any single earning position's amount is within the earning total.
proof fn lemma_pledge_valid_sum_element(s: Seq<(u64, PledgePosition)>, now: u64, i: int)
    requires
        0 <= i < s.len(),
        !pledge_expired(s[i].1, now),
    ensures
        s[i].1.amount.units as int <= pledge_valid_sum(s, now),
    decreases i,
{
    if i == 0 {
        lemma_pledge_valid_sum_le(s.drop_first(), now);
    } else {
        lemma_pledge_valid_sum_element(s.drop_first(), now, i - 1);
    }
}

proof fn lemma_pledge_distribute_push(
    s: Seq<(u64, PledgePosition)>,
    p: (u64, PledgePosition),
    now: u64,
    pool: int,
    tot: int,
)
    ensures
        pledge_after_distribute(s.push(p), now, pool, tot) == pledge_after_distribute(
            s,
            now,
            pool,
            tot,
        ) + (if pledge_expired(p.1, now) {
            Seq::<(u64, PledgePosition)>::empty()
        } else {
            seq![(p.0, pledge_bump(p.1, pool, tot))]
        }),
    decreases s.len(),
{
    if s.len() == 0 {
        assert(s.push(p)[0] == p);
        assert(s.push(p).drop_first() =~= Seq::<(u64, PledgePosition)>::empty());
        assert(pledge_after_distribute(Seq::<(u64, PledgePosition)>::empty(), now, pool, tot) =~= Seq::<
            (u64, PledgePosition),
        >::empty());
        assert(pledge_after_distribute(s.push(p), now, pool, tot) =~= pledge_after_distribute(
            s,
            now,
            pool,
            tot,
        ) + (if pledge_expired(p.1, now) {
            Seq::<(u64, PledgePosition)>::empty()
        } else {
            seq![(p.0, pledge_bump(p.1, pool, tot))]
        }));
    } else {
        lemma_pledge_distribute_push(s.drop_first(), p, now, pool, tot);
        assert(s.push(p)[0] == s[0]);
        assert(s.push(p).drop_first() =~= s.drop_first().push(p));
        assert(pledge_after_distribute(s.push(p), now, pool, tot) =~= pledge_after_distribute(
            s,
            now,
            pool,
            tot,
        ) + (if pledge_expired(p.1, now) {
            Seq::<(u64, PledgePosition)>::empty()
        } else {
            seq![(p.0, pledge_bump(p.1, pool, tot))]
        }));
    }
}

/// Distribution keeps keys distinct, acts pointwise, and the surviving
/// pledged amounts sum to exactly the earning total.
proof fn lemma_pledge_distribute_props(s: Seq<(u64, PledgePosition)>, now: u64, pool: int, tot: int)
    requires
        keys_unique(s),
    ensures
        keys_unique(pledge_after_distribute(s, now, pool, tot)),
        pledge_sum(pledge_after_distribute(s, now, pool, tot)) == pledge_valid_sum(s, now),
        forall|k: u64| #[trigger]
            assoc_get(pledge_after_distribute(s, now, pool, tot), k) == (match assoc_get(s, k) {
                Some(p) => if pledge_expired(p, now) {
                    None
                } else {
                    Some(pledge_bump(p, pool, tot))
                },
                None => None,
            }),
    decreases s.len(),
{
    let t = pledge_after_distribute(s, now, pool, tot);
    if s.len() == 0 {
        assert(assoc_sum(t, pledge_amount_proj()) == 0);
        assert forall|k: u64| #[trigger] assoc_get(t, k) == None::<PledgePosition> by {}
    } else {
        let h = s[0];
        let rest = pledge_after_distribute(s.drop_first(), now, pool, tot);
        assert(keys_unique(s.drop_first())) by {
            assert(forall|j: int|
                0 <= j < s.drop_first().len() ==> s.drop_first()[j] == s[j + 1]);
        }
        lemma_pledge_distribute_props(s.drop_first(), now, pool, tot);
        assert(assoc_get(s.drop_first(), h.0) is None) by {
            assert(forall|j: int|
                0 <= j < s.drop_first().len() ==> (#[trigger] s.drop_first()[j]).0 != h.0) by {
                assert(forall|j: int|
                    0 <= j < s.drop_first().len() ==> s.drop_first()[j] == s[j + 1]);
            }
            lemma_assoc_get_absent(s.drop_first(), h.0);
        }
        assert(assoc_get(rest, h.0) is None);
        lemma_assoc_absent_no_index(rest, h.0);
        if pledge_expired(h.1, now) {
            assert(t =~= rest);
            assert forall|k: u64| #[trigger]
                assoc_get(t, k) == (match assoc_get(s, k) {
                    Some(p) => if pledge_expired(p, now) {
                        None
                    } else {
                        Some(pledge_bump(p, pool, tot))
                    },
                    None => None,
                }) by {
                if k != h.0 {
                    assert(assoc_get(s, k) == assoc_get(s.drop_first(), k));
                }
            }
        } else {
            assert(t =~= seq![(h.0, pledge_bump(h.1, pool, tot))] + rest);
            assert(t[0] == (h.0, pledge_bump(h.1, pool, tot)));
            assert(t.drop_first() =~= rest);
            assert(keys_unique(t)) by {
                assert(forall|j: int| 1 <= j < t.len() ==> #[trigger] t[j] == rest[j - 1]);
            }
            assert(pledge_sum(t) == pledge_amount_proj()(t[0].1) + pledge_sum(rest));
            assert forall|k: u64| #[trigger]
                assoc_get(t, k) == (match assoc_get(s, k) {
                    Some(p) => if pledge_expired(p, now) {
                        None
                    } else {
                        Some(pledge_bump(p, pool, tot))
                    },
                    None => None,
                }) by {
                if k != h.0 {
                    assert(assoc_get(t, k) == assoc_get(rest, k));
                    assert(assoc_get(s, k) == assoc_get(s.drop_first(), k));
                }
            }
        }
    }
}

impl SatslinkerState {
    /// Distributes the VIP half of the per-round reward evenly across the
    /// VIP positions that survive the round, pruning expired positions with
    /// nothing left to claim. With no surviving position the VIP share is
    /// dropped for this round. Always reports completion.
    pub fn distribute_vip_pos_rewards(&mut self, now: Timestamp) -> (r: bool)
        requires
            old(self).wf(),
            vip_headroom(old(self).vip_shares@),
        ensures
            r == true,
            final(self).wf(),
            final(self).vip_shares@ == vip_after_distribute(
                old(self).vip_shares@,
                now,
                vip_per_account(
                    old(self).vip_shares@,
                    now,
                    old(self).info.current_token_reward.units as int,
                ) as u128,
            ),
            final(self).pledge_shares@ == old(self).pledge_shares@,
            final(self).info == old(self).info,
    {
        let ghost s0 = self.vip_shares@;
        let n = self.vip_shares.len();
        let mut cnt: usize = 0;
        let mut i: usize = 0;
        proof {
            assert(s0.take(0) =~= Seq::<(u64, VipPosition)>::empty());
        }
        while i < n
            invariant
                s0 == self.vip_shares@,
                n == s0.len(),
                i <= n,
                cnt <= i,
                cnt == vip_active_count(s0.take(i as int), now),
            decreases n - i,
        {
            let (_, p) = self.vip_shares.entry_at(i);
            proof {
                assert(s0.take(i + 1) =~= s0.take(i as int).push(s0[i as int]));
                lemma_vip_count_push(s0.take(i as int), s0[i as int], now);
            }
            if !(now >= p.expiry && p.unclaimed_reward.units == 0) {
                cnt = cnt + 1;
            }
            i = i + 1;
        }
        proof {
            assert(s0.take(n as int) =~= s0);
        }
        let reward_units = self.info.current_token_reward.units;
        proof {
            lemma_ratio_le(reward_units as int, 500, 1000);
        }
        let pool: u128 = reward_units * 500 / 1000;
        let per: u128 = if cnt > 0 {
            pool / (cnt as u128)
        } else {
            0
        };
        proof {
            assert(per <= pool);
            assert(per == vip_per_account(s0, now, reward_units as int));
        }
        let mut out: Vec<(u64, VipPosition)> = Vec::new();
        let mut j: usize = 0;
        proof {
            assert(s0.take(0) =~= Seq::<(u64, VipPosition)>::empty());
            assert(out@ =~= vip_after_distribute(s0.take(0), now, per));
        }
        while j < n
            invariant
                s0 == self.vip_shares@,
                n == s0.len(),
                j <= n,
                vip_headroom(s0),
                per <= POS_ROUND_START_REWARD_E8S,
                out@ == vip_after_distribute(s0.take(j as int), now, per),
            decreases n - j,
        {
            let (k, p) = self.vip_shares.entry_at(j);
            proof {
                assert(s0.take(j + 1) =~= s0.take(j as int).push(s0[j as int]));
                lemma_vip_distribute_push(s0.take(j as int), s0[j as int], now, per);
            }
            if !(now >= p.expiry && p.unclaimed_reward.units == 0) {
                let bumped = VipPosition {
                    address: p.address,
                    expiry: p.expiry,
                    unclaimed_reward: p.unclaimed_reward.plus(Quantity::new(per)),
                };
                out.push((k, bumped));
                proof {
                    assert(out@ =~= vip_after_distribute(s0.take(j as int), now, per).push(
                        (s0[j as int].0, vip_bump(s0[j as int].1, per)),
                    ));
                    assert(out@ =~= vip_after_distribute(s0.take(j + 1), now, per));
                }
            } else {
                proof {
                    assert(vip_after_distribute(s0.take(j + 1), now, per) =~= vip_after_distribute(
                        s0.take(j as int),
                        now,
                        per,
                    ) + Seq::<(u64, VipPosition)>::empty());
                    assert(out@ =~= vip_after_distribute(s0.take(j + 1), now, per));
                }
            }
            j = j + 1;
        }
        proof {
            assert(s0.take(n as int) =~= s0);
            lemma_vip_distribute_props(s0, now, per);
        }
        self.vip_shares = KvVec::from_vec(out);
        true
    }

    /// Distributes the pledge share of the per-round reward pro-rata by
    /// pledged amount across the pledges still inside their earning window;
    /// expired pledges are removed and their amounts released from the
    /// recorded supply. Always reports completion.
    pub fn distribute_pledge_rewards(&mut self, now: Timestamp) -> (r: bool)
        requires
            old(self).wf(),
            pledge_headroom(old(self).pledge_shares@),
        ensures
            r == true,
            final(self).wf(),
            final(self).pledge_shares@ == pledge_after_distribute(
                old(self).pledge_shares@,
                now,
                pledge_pool_units(old(self).info.current_token_reward.units as int),
                pledge_valid_sum(old(self).pledge_shares@, now),
            ),
            final(self).vip_shares@ == old(self).vip_shares@,
            final(self).info.total_pledge_token_supply.units == pledge_valid_sum(
                old(self).pledge_shares@,
                now,
            ),
            final(self).info == (SatslinkerStateInfo {
                total_pledge_token_supply: final(self).info.total_pledge_token_supply,
                ..old(self).info
            }),
    {
        let ghost s0 = self.pledge_shares@;
        let n = self.pledge_shares.len();
        let mut valid_total: u128 = 0;
        let mut i: usize = 0;
        proof {
            assert(s0.take(0) =~= Seq::<(u64, PledgePosition)>::empty());
            lemma_pledge_valid_sum_le(s0, now);
        }
        while i < n
            invariant
                s0 == self.pledge_shares@,
                self.info == old(self).info,
                old(self).wf(),
                n == s0.len(),
                i <= n,
                valid_total == pledge_valid_sum(s0.take(i as int), now),
                pledge_valid_sum(s0.take(i as int), now) <= pledge_valid_sum(s0, now),
                pledge_valid_sum(s0, now) <= old(self).info.total_pledge_token_supply.units,
            decreases n - i,
        {
            let (_, p) = self.pledge_shares.entry_at(i);
            proof {
                assert(s0.take(i + 1) =~= s0.take(i as int).push(s0[i as int]));
                lemma_pledge_valid_sum_push(s0.take(i as int), s0[i as int], now);
                assert(pledge_valid_sum(s0.take(i + 1), now) <= pledge_valid_sum(s0, now)) by {
                    lemma_pledge_valid_sum_take_le(s0, now, i + 1);
                }
            }
            if !((now as u128) >= (p.pledge_time as u128) + (PLEDGE_ROUND_DELAY_NS as u128)) {
                valid_total = valid_total + p.amount.units;
            }
            i = i + 1;
        }
        proof {
            assert(s0.take(n as int) =~= s0);
        }
        let reward_units = self.info.current_token_reward.units;
        proof {
            lemma_ratio_le(reward_units as int, 375, 1000);
        }
        let pool: u128 = reward_units * 375 / 1000;
        let mut out: Vec<(u64, PledgePosition)> = Vec::new();
        let mut j: usize = 0;
        proof {
            assert(s0.take(0) =~= Seq::<(u64, PledgePosition)>::empty());
            assert(out@ =~= pledge_after_distribute(s0.take(0), now, pool as int, valid_total as int));
        }
        while j < n
            invariant
                s0 == self.pledge_shares@,
                self.info == old(self).info,
                old(self).wf(),
                n == s0.len(),
                j <= n,
                pledge_headroom(s0),
                pool <= POS_ROUND_START_REWARD_E8S,
                valid_total == pledge_valid_sum(s0, now),
                valid_total <= old(self).info.total_pledge_token_supply.units,
                out@ == pledge_after_distribute(s0.take(j as int), now, pool as int, valid_total as int),
            decreases n - j,
        {
            let (k, p) = self.pledge_shares.entry_at(j);
            proof {
                assert(s0.take(j + 1) =~= s0.take(j as int).push(s0[j as int]));
                lemma_pledge_distribute_push(
                    s0.take(j as int),
                    s0[j as int],
                    now,
                    pool as int,
                    valid_total as int,
                );
            }
            if !((now as u128) >= (p.pledge_time as u128) + (PLEDGE_ROUND_DELAY_NS as u128)) {
                proof {
                    lemma_pledge_valid_sum_element(s0, now, j as int);
                    assert(pool * p.amount.units <= u128::MAX) by (nonlinear_arith)
                        requires
                            pool <= 102_400_000_000,
                            p.amount.units <= valid_total,
                            valid_total <= MAX_PLEDGE_SUPPLY_UNITS,
                            MAX_PLEDGE_SUPPLY_UNITS == u128::MAX / 102_400_000_000,
                    ;
                    if valid_total > 0 {
                        lemma_ratio_le(pool as int, p.amount.units as int, valid_total as int);
                        vstd::arithmetic::mul::lemma_mul_is_commutative(
                            pool as int,
                            p.amount.units as int,
                        );
                    }
                }
                let cut: u128 = if valid_total > 0 {
                    pool * p.amount.units / valid_total
                } else {
                    0
                };
                let bumped = PledgePosition {
                    amount: p.amount,
                    pledge_time: p.pledge_time,
                    unclaimed_reward: p.unclaimed_reward.plus(Quantity::new(cut)),
                };
                out.push((k, bumped));
                proof {
                    assert(out@ =~= pledge_after_distribute(
                        s0.take(j as int),
                        now,
                        pool as int,
                        valid_total as int,
                    ).push((s0[j as int].0, pledge_bump(s0[j as int].1, pool as int, valid_total as int))));
                    assert(out@ =~= pledge_after_distribute(
                        s0.take(j + 1),
                        now,
                        pool as int,
                        valid_total as int,
                    ));
                }
            } else {
                proof {
                    assert(pledge_after_distribute(s0.take(j + 1), now, pool as int, valid_total as int)
                        =~= pledge_after_distribute(s0.take(j as int), now, pool as int, valid_total as int)
                        + Seq::<(u64, PledgePosition)>::empty());
                    assert(out@ =~= pledge_after_distribute(
                        s0.take(j + 1),
                        now,
                        pool as int,
                        valid_total as int,
                    ));
                }
            }
            j = j + 1;
        }
        proof {
            assert(s0.take(n as int) =~= s0);
            lemma_pledge_distribute_props(s0, now, pool as int, valid_total as int);
        }
        self.pledge_shares = KvVec::from_vec(out);
        self.info.total_pledge_token_supply = Quantity::new(valid_total);
        true
    }
}

/// What the host must transfer after a round: accumulator balances that
/// crossed the flush threshold. The accumulators themselves stay intact
/// until the host confirms the transfer succeeded.
pub struct FlushPlan {
    /// Balance of the lottery pool to move to its subaccount, if due.
    pub lottery_due: Option<E8s>,
    /// Balance of the developer pool to move to its subaccount, if due.
    pub dev_due: Option<E8s>,
}

/// The machine-limit headroom one round tick needs: room for one round of
/// accrual in every reward carrier, and a round counter that can still grow.
pub open spec fn round_ready(s: SatslinkerState) -> bool {
    &&& s.wf()
    &&& vip_headroom(s.vip_shares@)
    &&& pledge_headroom(s.pledge_shares@)
    &&& s.info.total_token_lottery.units <= u128::MAX - POS_ROUND_START_REWARD_E8S
    &&& s.info.total_token_dev.units <= u128::MAX - POS_ROUND_START_REWARD_E8S
    &&& s.info.current_pos_round < u64::MAX
}

impl SatslinkerState {
    /// Whether one round tick has the headroom [`round_ready`] asks for.
    /// The host checks this before ticking and skips the round otherwise.
    pub fn can_run_round(&self) -> (r: bool)
        requires
            self.wf(),
        ensures
            r == round_ready(*self),
    {
        if self.info.current_pos_round == u64::MAX {
            return false;
        }
        let limit: u128 = u128::MAX - POS_ROUND_START_REWARD_E8S as u128;
        if self.info.total_token_lottery.units > limit {
            return false;
        }
        if self.info.total_token_dev.units > limit {
            return false;
        }
        let ghost v0 = self.vip_shares@;
        let n = self.vip_shares.len();
        let mut i: usize = 0;
        while i < n
            invariant
                v0 == self.vip_shares@,
                n == v0.len(),
                i <= n,
                limit == u128::MAX - POS_ROUND_START_REWARD_E8S,
                forall|j: int|
                    0 <= j < i ==> (#[trigger] v0[j]).1.unclaimed_reward.units <= u128::MAX
                        - POS_ROUND_START_REWARD_E8S,
            decreases n - i,
        {
            let (_, p) = self.vip_shares.entry_at(i);
            if p.unclaimed_reward.units > limit {
                return false;
            }
            i = i + 1;
        }
        let ghost q0 = self.pledge_shares@;
        let m = self.pledge_shares.len();
        let mut j: usize = 0;
        while j < m
            invariant
                q0 == self.pledge_shares@,
                m == q0.len(),
                j <= m,
                limit == u128::MAX - POS_ROUND_START_REWARD_E8S,
                forall|k: int|
                    0 <= k < j ==> (#[trigger] q0[k]).1.unclaimed_reward.units <= u128::MAX
                        - POS_ROUND_START_REWARD_E8S,
            decreases m - j,
        {
            let (_, p) = self.pledge_shares.entry_at(j);
            if p.unclaimed_reward.units > limit {
                return false;
            }
            j = j + 1;
        }
        true
    }

    /// One distribution round, the synchronous step of the tick.
    ///
    /// When distribution is switched off the state is left exactly as it is
    /// (the host still reschedules the next tick, so the round clock never
    /// silently stops). Otherwise: the lottery and developer pools accrue
    /// their cuts of the per-round reward, the VIP and pledge shares are
    /// distributed, each accumulator that exceeds the round-start reward is
    /// reported for flushing, and the round is completed — the counter grows
    /// by exactly one, the seed rolls one hash-chain step, and the reward
    /// follows the halving schedule.
    pub fn run_round(&mut self, now: Timestamp) -> (r: FlushPlan)
        requires
            round_ready(*old(self)),
        ensures
            final(self).wf(),
            !(old(self).info.satslink_enabled matches Some(true)) ==> *final(self) == *old(self)
                && r.lottery_due is None && r.dev_due is None,
            (old(self).info.satslink_enabled matches Some(true)) ==> {
                let reward0 = old(self).info.current_token_reward.units as int;
                &&& final(self).vip_shares@ == vip_after_distribute(
                    old(self).vip_shares@,
                    now,
                    vip_per_account(old(self).vip_shares@, now, reward0) as u128,
                )
                &&& final(self).pledge_shares@ == pledge_after_distribute(
                    old(self).pledge_shares@,
                    now,
                    pledge_pool_units(reward0),
                    pledge_valid_sum(old(self).pledge_shares@, now),
                )
                &&& final(self).info.total_pledge_token_supply.units == pledge_valid_sum(
                    old(self).pledge_shares@,
                    now,
                )
                &&& final(self).info.total_token_lottery.units == old(
                    self,
                ).info.total_token_lottery.units + reward0 * 100 / 1000
                &&& final(self).info.total_token_dev.units == old(self).info.total_token_dev.units
                    + reward0 * 25 / 1000
                &&& final(self).info.total_token_minted == old(self).info.total_token_minted
                &&& final(self).info.current_pos_round == old(self).info.current_pos_round + 1
                &&& final(self).info.seed@ == crate::info::seed_chain_next(old(self).info.seed@)
                &&& final(self).info.current_token_reward.units
                    == SatslinkerStateInfo::reward_after_round(
                    reward0,
                    old(self).info.current_pos_round + 1,
                )
                &&& final(self).info.pos_round_delay_ns == old(self).info.pos_round_delay_ns
                &&& final(self).info.satslink_enabled == old(self).info.satslink_enabled
                &&& final(self).info.tmp_can_vip_migrate == old(self).info.tmp_can_vip_migrate
                &&& final(self).info.tmp_can_pledge_migrate == old(
                    self,
                ).info.tmp_can_pledge_migrate
                &&& final(self).info.icp_to_cycles_exchange_rate == old(
                    self,
                ).info.icp_to_cycles_exchange_rate
                &&& r.lottery_due == (if final(self).info.total_token_lottery.units
                    > POS_ROUND_START_REWARD_E8S {
                    Some(final(self).info.total_token_lottery)
                } else {
                    None::<E8s>
                })
                &&& r.dev_due == (if final(self).info.total_token_dev.units
                    > POS_ROUND_START_REWARD_E8S {
                    Some(final(self).info.total_token_dev)
                } else {
                    None::<E8s>
                })
            },
    {
        if !self.info.is_satslink_enabled() {
            return FlushPlan { lottery_due: None, dev_due: None };
        }
        let reward_units = self.info.current_token_reward.units;
        proof {
            lemma_ratio_le(reward_units as int, 100, 1000);
            lemma_ratio_le(reward_units as int, 25, 1000);
        }
        let lottery_cut: E8s = Quantity::new(reward_units * 100 / 1000);
        self.info.total_token_lottery = self.info.total_token_lottery.plus(lottery_cut);
        let dev_cut: E8s = Quantity::new(reward_units * 25 / 1000);
        self.info.total_token_dev = self.info.total_token_dev.plus(dev_cut);
        self.distribute_vip_pos_rewards(now);
        self.distribute_pledge_rewards(now);
        let lottery_due = if self.info.total_token_lottery.units
            > POS_ROUND_START_REWARD_E8S as u128 {
            Some(self.info.total_token_lottery)
        } else {
            None
        };
        let dev_due = if self.info.total_token_dev.units > POS_ROUND_START_REWARD_E8S as u128 {
            Some(self.info.total_token_dev)
        } else {
            None
        };
        self.info.complete_round();
        FlushPlan { lottery_due, dev_due }
    }

    /// Confirms that a lottery-pool flush of `amount` reached its
    /// subaccount: only now is the accumulator drained (of exactly the
    /// transferred amount, keeping anything accrued meanwhile) and the
    /// amount counted as minted. On a failed transfer the host simply does
    /// not call this, and the accumulator is flushed again next round —
    /// nothing accrued is ever lost.
    pub fn note_lottery_flushed(&mut self, amount: E8s)
        requires
            old(self).wf(),
            old(self).info.total_token_minted.units + amount.units <= u128::MAX,
        ensures
            final(self).wf(),
            final(self).info.total_token_lottery.units == if old(
                self,
            ).info.total_token_lottery.units >= amount.units {
                old(self).info.total_token_lottery.units - amount.units
            } else {
                0
            },
            final(self).info.total_token_minted.units == old(self).info.total_token_minted.units
                + amount.units,
            final(self).info == (SatslinkerStateInfo {
                total_token_lottery: final(self).info.total_token_lottery,
                total_token_minted: final(self).info.total_token_minted,
                ..old(self).info
            }),
            final(self).vip_shares@ == old(self).vip_shares@,
            final(self).pledge_shares@ == old(self).pledge_shares@,
    {
        self.info.total_token_lottery = self.info.total_token_lottery.saturating_minus(amount);
        self.info.total_token_minted = self.info.total_token_minted.plus(amount);
    }

    /// Confirms a developer-pool flush, exactly as
    /// [`Self::note_lottery_flushed`] does for the lottery pool.
    pub fn note_dev_flushed(&mut self, amount: E8s)
        requires
            old(self).wf(),
            old(self).info.total_token_minted.units + amount.units <= u128::MAX,
        ensures
            final(self).wf(),
            final(self).info.total_token_dev.units == if old(self).info.total_token_dev.units
                >= amount.units {
                old(self).info.total_token_dev.units - amount.units
            } else {
                0
            },
            final(self).info.total_token_minted.units == old(self).info.total_token_minted.units
                + amount.units,
            final(self).info == (SatslinkerStateInfo {
                total_token_dev: final(self).info.total_token_dev,
                total_token_minted: final(self).info.total_token_minted,
                ..old(self).info
            }),
            final(self).vip_shares@ == old(self).vip_shares@,
            final(self).pledge_shares@ == old(self).pledge_shares@,
    {
        self.info.total_token_dev = self.info.total_token_dev.saturating_minus(amount);
        self.info.total_token_minted = self.info.total_token_minted.plus(amount);
    }
}


/// A prefix's earning total never exceeds the whole sequence's.
proof fn lemma_pledge_valid_sum_take_le(s: Seq<(u64, PledgePosition)>, now: u64, i: int)
    requires
        0 <= i <= s.len(),
    ensures
        pledge_valid_sum(s.take(i), now) <= pledge_valid_sum(s, now),
    decreases s.len() - i,
{
    if i < s.len() {
        assert(s.take(i + 1) =~= s.take(i).push(s[i]));
        lemma_pledge_valid_sum_push(s.take(i), s[i], now);
        lemma_pledge_valid_sum_take_le(s, now, i + 1);
        assert(s.take(s.len() as int) =~= s);
    } else {
        assert(s.take(i) =~= s);
    }
}

} // verus!
