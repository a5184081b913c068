//! Reward-accounting and distribution engine for a token-incentive program
//! running inside a canister execution environment.
//!
//! Users lock a base asset or a reward token in exchange for time-boxed VIP
//! positions or longer-term pledge positions; the engine periodically mints
//! and splits a per-round reward across lottery/VIP/pledge/developer pools,
//! and coordinates claims with an external asynchronous ledger through a
//! two-phase claim/revert protocol, so that funds are never lost or counted
//! twice.
//!
//! All monetary values are fixed-point decimal quantities ([`qty::Quantity`]);
//! the host plumbing (timers, inter-canister calls, persistence) lives outside
//! this crate and talks to it through plain values.

pub mod qty;
pub mod store;
pub mod types;
pub mod info;
pub mod state;
pub mod round;
pub mod api;
pub mod queries;
pub mod guard;
pub mod payments;
pub mod flows;
pub mod laws;
