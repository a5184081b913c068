//! Decisions around the external money flows: how collected base-asset fees
//! are split between pools, what a lottery draw pays, and how much VIP time
//! a stake buys. The host performs the transfers; these functions decide the
//! amounts.

use vstd::prelude::*;
use crate::qty::TCycles;
use crate::types::{
    ICP_FEE,
    MIN_ICP_STAKE_E8S_U64,
    REDISTRIBUTION_DEV_SHARE_E8S,
    REDISTRIBUTION_LOTTERY_SHARE_E8S,
    REDISTRIBUTION_SWAPPOOL_SHARE_E8S,
    SatslinkerError,
    TCYCLE_POS_ROUND_BASE_FEE,
};

verus! {

/// The three transfers that redistribute a collected base-asset balance:
/// 60% to the swap pool, 10% to the lottery pool, 30% to the developer
/// pool, each already net of the flat ledger fee the transfer costs.
pub struct RedistributionPlan {
    pub to_swappool: u64,
    pub to_lottery: u64,
    pub to_dev: u64,
}

/// One e8s-scaled unit: the denominator of the redistribution shares.
pub open spec fn one_e8s() -> int {
    100_000_000
}

/// Splits a collected balance across the three pools. Balances of one whole
/// unit or less are left to accumulate: no transfer is worth its fee yet.
pub fn redistribution_plan(balance_e8s: u64) -> (r: Option<RedistributionPlan>)
    ensures
        balance_e8s <= one_e8s() ==> r is None,
        balance_e8s > one_e8s() ==> (r matches Some(plan) && {
            &&& plan.to_swappool == balance_e8s * REDISTRIBUTION_SWAPPOOL_SHARE_E8S / one_e8s()
                - ICP_FEE
            &&& plan.to_lottery == balance_e8s * REDISTRIBUTION_LOTTERY_SHARE_E8S / one_e8s()
                - ICP_FEE
            &&& plan.to_dev == balance_e8s * REDISTRIBUTION_DEV_SHARE_E8S / one_e8s() - ICP_FEE
        }),
{
    if balance_e8s <= 100_000_000 {
        return None;
    }
    let balance: u128 = balance_e8s as u128;
    proof {
        assert(balance * 60_000_000 <= u128::MAX && balance * 10_000_000 <= u128::MAX && balance
            * 30_000_000 <= u128::MAX) by (nonlinear_arith)
            requires
                balance <= u64::MAX,
        ;
    }
    let qty_to_swappool = balance * (REDISTRIBUTION_SWAPPOOL_SHARE_E8S as u128) / 100_000_000;
    let qty_to_lottery = balance * (REDISTRIBUTION_LOTTERY_SHARE_E8S as u128) / 100_000_000;
    let qty_to_dev = balance * (REDISTRIBUTION_DEV_SHARE_E8S as u128) / 100_000_000;
    proof {
        crate::round::lemma_ratio_le(balance as int, REDISTRIBUTION_SWAPPOOL_SHARE_E8S as int, one_e8s());
        crate::round::lemma_ratio_le(balance as int, REDISTRIBUTION_LOTTERY_SHARE_E8S as int, one_e8s());
        crate::round::lemma_ratio_le(balance as int, REDISTRIBUTION_DEV_SHARE_E8S as int, one_e8s());
    }
    Some(
        RedistributionPlan {
            to_swappool: (qty_to_swappool as u64) - ICP_FEE,
            to_lottery: (qty_to_lottery as u64) - ICP_FEE,
            to_dev: (qty_to_dev as u64) - ICP_FEE,
        },
    )
}

/// Whether a byte is an ASCII decimal digit.
pub open spec fn is_ascii_digit(b: u8) -> bool {
    48 <= b <= 57
}

/// The value of the last ASCII digit in the bytes, scanning from the end.
pub open spec fn last_ascii_digit(s: Seq<u8>) -> Option<u8>
    decreases s.len(),
{
    if s.len() == 0 {
        None
    } else if is_ascii_digit(s.last()) {
        Some((s.last() - 48) as u8)
    } else {
        last_ascii_digit(s.drop_last())
    }
}

/// What the lottery pays for a `qty` entry given the host's random bytes:
/// double the entry when the last digit of the random bytes has the same
/// parity as the entry's last digit, nothing otherwise (and nothing when the
/// random bytes hold no digit at all).
pub open spec fn lottery_payout(qty: u64, rand: Seq<u8>) -> Option<u64> {
    match last_ascii_digit(rand) {
        Some(d) => if d % 2 == (qty % 10) % 2 {
            Some((qty * 2) as u64)
        } else {
            None
        },
        None => None,
    }
}

/// Decides a lottery draw from the host-fetched random bytes.
pub fn lottery_outcome(qty: u64, rand: &Vec<u8>) -> (r: Option<u64>)
    requires
        qty * 2 <= u64::MAX,
    ensures
        r == lottery_payout(qty, rand@),
{
    let mut i: usize = rand.len();
    proof {
        assert(rand@.take(rand@.len() as int) =~= rand@);
    }
    while i > 0
        invariant
            i <= rand@.len(),
            qty * 2 <= u64::MAX,
            last_ascii_digit(rand@) == last_ascii_digit(rand@.take(i as int)),
        decreases i,
    {
        let b = rand[i - 1];
        proof {
            assert(rand@.take(i as int).last() == rand@[i - 1]);
            assert(rand@.take(i as int).drop_last() =~= rand@.take(i - 1));
        }
        if b >= 48 && b <= 57 {
            let d = b - 48;
            if (d % 2) as u64 == (qty % 10) % 2 {
                return Some(qty * 2);
            } else {
                return None;
            }
        }
        i = i - 1;
    }
    proof {
        assert(rand@.take(0) =~= Seq::<u8>::empty());
    }
    None
}

/// The VIP eligibility a stake buys, in round units: the staked amount
/// converted to cycles at the current exchange rate, divided by the
/// per-round participation fee; truncated at each division.
pub open spec fn vip_extension_spec(qty_e8s: int, rate_units: int) -> int {
    qty_e8s * 10_000 * rate_units / 1_000_000_000_000 / (TCYCLE_POS_ROUND_BASE_FEE as int)
}

/// Prices a VIP stake: rejects a stake below the protocol minimum before
/// any state change or transfer, and otherwise returns the expiry extension
/// the stake buys at the given exchange rate.
pub fn prepare_vip_stake(qty_e8s_u64: u64, rate: TCycles) -> (r: Result<u64, SatslinkerError>)
    requires
        qty_e8s_u64 * 10_000 * rate.units <= u128::MAX,
        vip_extension_spec(qty_e8s_u64 as int, rate.units as int) <= u64::MAX,
    ensures
        qty_e8s_u64 < MIN_ICP_STAKE_E8S_U64 ==> r == Err::<u64, SatslinkerError>(
            SatslinkerError::InsufficientAmount,
        ),
        qty_e8s_u64 >= MIN_ICP_STAKE_E8S_U64 ==> r == Ok::<u64, SatslinkerError>(
            (vip_extension_spec(qty_e8s_u64 as int, rate.units as int)) as u64,
        ),
{
    if qty_e8s_u64 < MIN_ICP_STAKE_E8S_U64 {
        return Err(SatslinkerError::InsufficientAmount);
    }
    let cycles: u128 = (qty_e8s_u64 as u128) * 10_000 * rate.units / 1_000_000_000_000;
    let rounds: u128 = cycles / (TCYCLE_POS_ROUND_BASE_FEE as u128);
    Ok(rounds as u64)
}

} // verus!
