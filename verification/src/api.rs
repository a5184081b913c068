//! Request and response records of the program's public surface. The host
//! moves these across the wire; the library fills and reads them as plain
//! values.

use vstd::prelude::*;
use crate::qty::{E8s, TCycles};
use crate::types::{AccountId, Address, SatslinkerError, Timestamp};

verus! {

/// The VIP positions bound to one external address: address, account,
/// expiry, unclaimed reward, and the eligibility flag.
pub struct GetVIPuserResponse {
    pub entry: Vec<(Address, AccountId, Timestamp, E8s, bool)>,
}

/// Global totals plus the caller's own position snapshot.
pub struct GetTotalsResponse {
    pub total_pledge_token_supply: E8s,
    pub total_token_lottery: E8s,
    pub total_token_dev: E8s,
    pub total_token_minted: E8s,
    pub current_token_reward: E8s,
    pub current_share_fee: TCycles,
    pub is_satslink_enabled: bool,
    pub current_pos_round: u64,
    pub pos_round_delay_ns: u64,
    pub total_pledge_participants: u64,
    pub total_vip_participants: u64,
    pub icp_to_cycles_exchange_rate: TCycles,
    pub your_vip_shares: u64,
    pub your_vip_unclaimed_reward_e8s: E8s,
    pub your_vip_eligibility_status: bool,
    pub your_pledge_shares: E8s,
    pub your_pledge_unclaimed_reward_e8s: E8s,
    pub your_pledge_eligibility_status: bool,
}

/// Which kind of lost tokens a refund request concerns, with the accounts
/// and raw amounts owed.
pub enum RefundTokenKind {
    ICP(Vec<(AccountId, u64)>),
}

pub struct RefundLostTokensRequest {
    pub kind: RefundTokenKind,
}

pub struct RefundLostTokensResponse {
    pub results: Vec<Result<u128, SatslinkerError>>,
}

pub struct ClaimRewardRequest {
    pub to: AccountId,
}

pub struct ClaimRewardResponse {
    pub result: Result<u128, SatslinkerError>,
}

pub struct StakeRequest {
    pub qty_e8s_u64: u64,
    pub address: Address,
}

pub struct StakeResponse {
    pub result: Result<u128, SatslinkerError>,
    pub message: String,
}

pub struct LotteryRequest {
    pub qty_e8s_u64: u64,
}

pub struct LotteryResponse {}

pub struct PledgeRequest {
    pub qty_e8s_u64: u64,
}

pub struct PledgeResponse {}

pub struct RedeemRequest {
    pub to: AccountId,
}

pub struct RedeemResponse {
    pub result: Result<u128, SatslinkerError>,
}

pub struct WithdrawRequest {
    pub qty_e8s: E8s,
    pub to: AccountId,
}

pub struct WithdrawResponse {}

pub struct MigrateAccountRequest {
    pub to: AccountId,
}

pub struct MigrateAccountResponse {}

} // verus!
