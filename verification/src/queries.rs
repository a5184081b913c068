//! Read-only reporting: global totals and per-address position lookups.

use vstd::prelude::*;
use crate::qty::Quantity;
use crate::api::{GetTotalsResponse, GetVIPuserResponse};
use crate::info::SatslinkerStateInfo;
use crate::state::{SatslinkerState, share_fee_units};
use crate::store::assoc_get;
use crate::types::{AccountId, Address, TCYCLE_POS_ROUND_BASE_FEE, Timestamp, VipPosition, address_eq};

verus! {

/// The VIP entries whose bound external address is `addr`, in store order,
/// each flagged eligible.
pub open spec fn vip_entries_for(s: Seq<(u64, VipPosition)>, addr: Seq<u8>) -> Seq<
    (Address, u64, u64, crate::qty::E8s, bool),
>
    decreases s.len(),
{
    if s.len() == 0 {
        Seq::empty()
    } else {
        let rest = vip_entries_for(s.drop_first(), addr);
        if s[0].1.address@ == addr {
            seq![(s[0].1.address, s[0].0, s[0].1.expiry, s[0].1.unclaimed_reward, true)] + rest
        } else {
            rest
        }
    }
}

proof fn lemma_vip_entries_push(s: Seq<(u64, VipPosition)>, p: (u64, VipPosition), addr: Seq<u8>)
    ensures
        vip_entries_for(s.push(p), addr) == vip_entries_for(s, addr) + (if p.1.address@ == addr {
            seq![(p.1.address, p.0, p.1.expiry, p.1.unclaimed_reward, true)]
        } else {
            Seq::<(Address, u64, u64, crate::qty::E8s, bool)>::empty()
        }),
    decreases s.len(),
{
    if s.len() == 0 {
        assert(s.push(p)[0] == p);
        assert(s.push(p).drop_first() =~= Seq::<(u64, VipPosition)>::empty());
        assert(vip_entries_for(Seq::<(u64, VipPosition)>::empty(), addr) =~= Seq::<
            (Address, u64, u64, crate::qty::E8s, bool),
        >::empty());
        assert(vip_entries_for(s.push(p), addr) =~= vip_entries_for(s, addr) + (if p.1.address@
            == addr {
            seq![(p.1.address, p.0, p.1.expiry, p.1.unclaimed_reward, true)]
        } else {
            Seq::<(Address, u64, u64, crate::qty::E8s, bool)>::empty()
        }));
    } else {
        lemma_vip_entries_push(s.drop_first(), p, addr);
        assert(s.push(p)[0] == s[0]);
        assert(s.push(p).drop_first() =~= s.drop_first().push(p));
        assert(vip_entries_for(s.push(p), addr) =~= vip_entries_for(s, addr) + (if p.1.address@
            == addr {
            seq![(p.1.address, p.0, p.1.expiry, p.1.unclaimed_reward, true)]
        } else {
            Seq::<(Address, u64, u64, crate::qty::E8s, bool)>::empty()
        }));
    }
}

impl SatslinkerState {
    /// A borrow of the global info record.
    pub fn get_info(&self) -> (r: &SatslinkerStateInfo)
        ensures
            *r == self.info,
    {
        &self.info
    }

    /// Replaces the global info record wholesale.
    pub fn set_info(&mut self, info: SatslinkerStateInfo)
        ensures
            final(self).info == info,
            final(self).vip_shares@ == old(self).vip_shares@,
            final(self).pledge_shares@ == old(self).pledge_shares@,
    {
        self.info = info;
    }

    /// The VIP positions bound to `address`, in store order.
    pub fn get_satslinkers(&self, address: Address) -> (r: GetVIPuserResponse)
        ensures
            r.entry@ == vip_entries_for(self.vip_shares@, address@),
    {
        let ghost s0 = self.vip_shares@;
        let n = self.vip_shares.len();
        let mut entry: Vec<(Address, AccountId, Timestamp, crate::qty::E8s, bool)> = Vec::new();
        let mut i: usize = 0;
        proof {
            assert(s0.take(0) =~= Seq::<(u64, VipPosition)>::empty());
            assert(entry@ =~= vip_entries_for(s0.take(0), address@));
        }
        while i < n
            invariant
                s0 == self.vip_shares@,
                n == s0.len(),
                i <= n,
                entry@ == vip_entries_for(s0.take(i as int), address@),
            decreases n - i,
        {
            let (k, p) = self.vip_shares.entry_at(i);
            proof {
                assert(s0.take(i + 1) =~= s0.take(i as int).push(s0[i as int]));
                lemma_vip_entries_push(s0.take(i as int), s0[i as int], address@);
            }
            if address_eq(&p.address, &address) {
                entry.push((p.address, k, p.expiry, p.unclaimed_reward, true));
                proof {
                    assert(entry@ =~= vip_entries_for(s0.take(i + 1), address@));
                }
            } else {
                proof {
                    assert(vip_entries_for(s0.take(i + 1), address@) =~= vip_entries_for(
                        s0.take(i as int),
                        address@,
                    ) + Seq::<(Address, u64, u64, crate::qty::E8s, bool)>::empty());
                    assert(entry@ =~= vip_entries_for(s0.take(i + 1), address@));
                }
            }
            i = i + 1;
        }
        proof {
            assert(s0.take(n as int) =~= s0);
        }
        GetVIPuserResponse { entry }
    }

    /// Global totals plus `caller`'s own snapshot: the VIP flag reports
    /// whether a VIP position exists, the pledge flag whether a pledge
    /// position exists with its amount at or above the fee threshold.
    pub fn get_totals(&self, caller: &AccountId) -> (r: GetTotalsResponse)
        requires
            self.vip_shares@.len() <= u64::MAX,
            self.pledge_shares@.len() <= u64::MAX,
        ensures
            r.total_pledge_token_supply == self.info.total_pledge_token_supply,
            r.total_token_lottery == self.info.total_token_lottery,
            r.total_token_dev == self.info.total_token_dev,
            r.total_token_minted == self.info.total_token_minted,
            r.current_token_reward == self.info.current_token_reward,
            r.current_share_fee.units == TCYCLE_POS_ROUND_BASE_FEE,
            r.is_satslink_enabled == (self.info.satslink_enabled matches Some(true)),
            r.current_pos_round == self.info.current_pos_round,
            r.pos_round_delay_ns == self.info.pos_round_delay_ns,
            r.total_pledge_participants == self.pledge_shares@.len(),
            r.total_vip_participants == self.vip_shares@.len(),
            self.info.icp_to_cycles_exchange_rate is Some ==> r.icp_to_cycles_exchange_rate
                == self.info.icp_to_cycles_exchange_rate->0,
            self.info.icp_to_cycles_exchange_rate is None ==> r.icp_to_cycles_exchange_rate.units
                == 8_000_000_000_000,
            r.your_vip_shares == (match assoc_get(self.vip_shares@, *caller) {
                Some(p) => p.expiry,
                None => 0,
            }),
            r.your_vip_unclaimed_reward_e8s.units == (match assoc_get(self.vip_shares@, *caller) {
                Some(p) => p.unclaimed_reward.units as int,
                None => 0,
            }),
            r.your_vip_eligibility_status == assoc_get(self.vip_shares@, *caller) is Some,
            r.your_pledge_shares.units == (match assoc_get(self.pledge_shares@, *caller) {
                Some(p) => p.amount.units as int,
                None => 0,
            }),
            r.your_pledge_unclaimed_reward_e8s.units == (match assoc_get(
                self.pledge_shares@,
                *caller,
            ) {
                Some(p) => p.unclaimed_reward.units as int,
                None => 0,
            }),
            r.your_pledge_eligibility_status == (match assoc_get(self.pledge_shares@, *caller) {
                Some(p) => p.amount.units >= share_fee_units(),
                None => false,
            }),
    {
        let fee = SatslinkerStateInfo::get_current_fee();
        let fee_units: u128 = TCYCLE_POS_ROUND_BASE_FEE as u128 / 10_000;
        let vip = self.vip_shares.get(*caller);
        let (your_vip_shares, your_vip_unclaimed, vip_status) = match vip {
            Some(p) => (p.expiry, p.unclaimed_reward, true),
            None => (0u64, Quantity::zero(), false),
        };
        let pledge = self.pledge_shares.get(*caller);
        let (your_pledge_shares, your_pledge_unclaimed, pledge_status) = match pledge {
            Some(p) => (p.amount, p.unclaimed_reward, p.amount.units >= fee_units),
            None => (Quantity::zero(), Quantity::zero(), false),
        };
        GetTotalsResponse {
            total_pledge_token_supply: self.info.total_pledge_token_supply,
            total_token_lottery: self.info.total_token_lottery,
            total_token_dev: self.info.total_token_dev,
            total_token_minted: self.info.total_token_minted,
            current_token_reward: self.info.current_token_reward,
            current_share_fee: fee,
            is_satslink_enabled: self.info.is_satslink_enabled(),
            current_pos_round: self.info.current_pos_round,
            pos_round_delay_ns: self.info.pos_round_delay_ns,
            total_pledge_participants: self.pledge_shares.len() as u64,
            total_vip_participants: self.vip_shares.len() as u64,
            icp_to_cycles_exchange_rate: self.info.get_icp_to_cycles_exchange_rate(),
            your_vip_shares,
            your_vip_unclaimed_reward_e8s: your_vip_unclaimed,
            your_vip_eligibility_status: vip_status,
            your_pledge_shares,
            your_pledge_unclaimed_reward_e8s: your_pledge_unclaimed,
            your_pledge_eligibility_status: pledge_status,
        }
    }
}

} // verus!
