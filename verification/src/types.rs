//! Domain types, protocol constants and the error taxonomy.

use vstd::prelude::*;

verus! {

/// An account identity, as an opaque numeric key. The host maps its own
/// principal values onto these keys one-for-one.
pub type AccountId = u64;

/// A point in time, in the round units the host hands in (host nanosecond
/// timestamps divided by [`VIP_ROUND_DELAY_NS`]).
pub type Timestamp = u64;

/// A 20-byte external chain address bound to a VIP position.
pub type Address = [u8; 20];

/// Raw cycle units (12 fractional digits) of the per-round participation fee.
pub const TCYCLE_POS_ROUND_BASE_FEE: u64 = 25_000_000_000;

/// The reward minted per round at the start of the schedule, in e8s units.
pub const POS_ROUND_START_REWARD_E8S: u64 = 102_400_000_000;

/// The floor the per-round reward never goes below, in e8s units.
pub const POS_ROUND_END_REWARD_E8S: u64 = 140_000;

/// The per-round reward shrinks by one quarter every this many rounds.
pub const POS_ROUNDS_PER_HALVING: u64 = 5040;

pub const ONE_MINUTE_NS: u64 = 60_000_000_000;

/// Divisor turning host nanosecond timestamps into round units.
pub const VIP_ROUND_DELAY_NS: u64 = 1_000_000_000;

/// Delay between two distribution rounds.
pub const POS_ROUND_DELAY_NS: u64 = ONE_MINUTE_NS / 10;

/// How long a pledge position keeps earning after its pledge time.
pub const PLEDGE_ROUND_DELAY_NS: u64 = ONE_MINUTE_NS * 1000;

pub const ICPSWAP_PRICE_UPDATE_INTERVAL_NS: u64 = ONE_MINUTE_NS * 1;

pub const ICP_REDISTRIBUTION_INTERVAL_NS: u64 = ONE_MINUTE_NS * 1;

/// Flat ledger fee charged on base-asset transfers, in e8s units.
pub const ICP_FEE: u64 = 10_000;

/// Smallest base-asset stake accepted, in e8s units.
pub const MIN_ICP_STAKE_E8S_U64: u64 = 50_000_000;

/// Smallest lottery entry accepted, in e8s units.
pub const MIN_STL_LOTTERY_E8S_U64: u64 = 100_000_000;

/// Collected base-asset fees are redistributed by these per-e8s shares.
pub const REDISTRIBUTION_LOTTERY_SHARE_E8S: u64 = 10_000_000;

pub const REDISTRIBUTION_SWAPPOOL_SHARE_E8S: u64 = 60_000_000;

pub const REDISTRIBUTION_DEV_SHARE_E8S: u64 = 30_000_000;

/// Ceiling on the total pledged supply, chosen so that a pro-rata product
/// `reward * amount` always fits in the 128-bit raw units
/// (the per-round reward never exceeds [`POS_ROUND_START_REWARD_E8S`]).
pub const MAX_PLEDGE_SUPPLY_UNITS: u128 = u128::MAX / 102_400_000_000;

/// Why an operation was refused. Every refusal is decided synchronously and
/// leaves the accounting state exactly as it was, except `TransferFailed`,
/// which the host reports after the compensating revert has already run.
#[derive(Clone, Copy, Debug, PartialEq, Eq, Structural)]
pub enum SatslinkerError {
    /// A stake, pledge or lottery entry below the protocol minimum.
    InsufficientAmount,
    /// A redeem attempted before the lock-up window elapsed.
    NotYetUnlocked,
    /// A claim attempted with nothing accrued.
    NoUnclaimedReward,
    /// The caller lacks the privilege, or is absent from the one-time
    /// migration allow-list.
    AccessDenied,
    /// The external ledger transfer failed; local state has been reverted.
    TransferFailed,
    /// The program is administratively stopped for an upgrade.
    Paused,
}

impl SatslinkerError {
    /// A short human-readable description.
    pub fn message(&self) -> (r: &'static str)
        ensures
            *self is AccessDenied ==> r@ == "Access denied"@,
            *self is Paused ==> r@ == "The canister is stopped and is awaiting for an update"@,
    {
        match self {
            SatslinkerError::InsufficientAmount => "Insufficient amount",
            SatslinkerError::NotYetUnlocked => "Not yet unlocked",
            SatslinkerError::NoUnclaimedReward => "No unclaimed reward",
            SatslinkerError::AccessDenied => "Access denied",
            SatslinkerError::TransferFailed => "Transfer failed",
            SatslinkerError::Paused => "The canister is stopped and is awaiting for an update",
        }
    }
}

/// Byte-wise equality of two external chain addresses.
pub fn address_eq(a: &Address, b: &Address) -> (r: bool)
    ensures
        r <==> a@ == b@,
{
    let mut i: usize = 0;
    while i < 20
        invariant
            i <= 20,
            forall|j: int| 0 <= j < i ==> a@[j] == b@[j],
        decreases 20 - i,
    {
        if a[i] != b[i] {
            return false;
        }
        i = i + 1;
    }
    proof {
        assert(a@ =~= b@);
    }
    true
}

/// The all-zero address, used where a position is created with no external
/// address bound to it.
pub fn zero_address() -> (r: Address)
    ensures
        forall|j: int| 0 <= j < 20 ==> r@[j] == 0u8,
{
    [0u8; 20]
}

/// A time-boxed reward-eligibility slot bought by staking the base asset.
#[derive(Clone, Copy, Debug)]
pub struct VipPosition {
    /// External chain address bound to the position.
    pub address: Address,
    /// Round-unit time after which the position is no longer eligible.
    pub expiry: Timestamp,
    /// Accrued, not yet claimed reward.
    pub unclaimed_reward: crate::qty::E8s,
}

/// A lock-up of reward tokens, reward-eligible until its lock expires.
#[derive(Clone, Copy, Debug)]
pub struct PledgePosition {
    /// Pledged amount of the reward token.
    pub amount: crate::qty::E8s,
    /// Round-unit time at which the pledge was (last) made.
    pub pledge_time: Timestamp,
    /// Accrued, not yet claimed reward.
    pub unclaimed_reward: crate::qty::E8s,
}

/// Which network the program is built for.
#[derive(Clone, Copy, Debug, PartialEq, Eq, Structural)]
pub enum CanisterMode {
    Dev,
    IC,
}

} // verus!
