//! Administrative gates: the stop-for-upgrade flag, the developer check,
//! and the token-canister whitelist.

use vstd::prelude::*;
use crate::info::{ids_contains, ids_without, ids_without_exec};
use crate::types::{AccountId, SatslinkerError};

verus! {

/// Whether the program is stopped for an upgrade, and who may administer
/// it. The host keeps one of these beside the accounting state; every
/// state-mutating entry point checks it first.
pub struct StopState {
    /// The developer (controller) account.
    pub dev: AccountId,
    /// True while the program is stopped awaiting an upgrade.
    pub stopped_for_update: bool,
}

/// Whether the program is stopped for an upgrade.
pub fn is_stopped(guard: &StopState) -> (r: bool)
    ensures
        r == guard.stopped_for_update,
{
    guard.stopped_for_update
}

/// Gate for state-mutating user operations: refused with `Paused` while the
/// program is stopped for an upgrade.
pub fn assert_running(guard: &StopState) -> (r: Result<(), SatslinkerError>)
    ensures
        r == (if guard.stopped_for_update {
            Err::<(), SatslinkerError>(SatslinkerError::Paused)
        } else {
            Ok::<(), SatslinkerError>(())
        }),
{
    if guard.stopped_for_update {
        Err(SatslinkerError::Paused)
    } else {
        Ok(())
    }
}

/// Gate for administrative operations: refused with `AccessDenied` unless
/// the caller is the developer.
pub fn assert_caller_is_dev(guard: &StopState, caller: AccountId) -> (r: Result<
    (),
    SatslinkerError,
>)
    ensures
        r == (if caller == guard.dev {
            Ok::<(), SatslinkerError>(())
        } else {
            Err::<(), SatslinkerError>(SatslinkerError::AccessDenied)
        }),
{
    if caller == guard.dev {
        Ok(())
    } else {
        Err(SatslinkerError::AccessDenied)
    }
}

/// Stops the program for an upgrade.
pub fn stop(guard: &mut StopState)
    ensures
        final(guard).stopped_for_update == true,
        final(guard).dev == old(guard).dev,
{
    if !guard.stopped_for_update {
        guard.stopped_for_update = true;
    }
}

/// Resumes the program after an upgrade.
pub fn resume(guard: &mut StopState)
    ensures
        final(guard).stopped_for_update == false,
        final(guard).dev == old(guard).dev,
{
    if guard.stopped_for_update {
        guard.stopped_for_update = false;
    }
}

/// What to do with the token-canister whitelist.
pub enum WhitelistOperation {
    Add,
    Remove,
    Check,
}

/// Manages the whitelist of accepted token canisters: adding and removing
/// are reserved to the admin; checking is open to everyone and never
/// changes the list.
pub fn manage_whitelist(
    whitelist: &mut Vec<AccountId>,
    admin: AccountId,
    caller: AccountId,
    canister_id: AccountId,
    operation: WhitelistOperation,
) -> (r: Result<bool, SatslinkerError>)
    ensures
        operation is Check ==> final(whitelist)@ == old(whitelist)@ && r == Ok::<
            bool,
            SatslinkerError,
        >(old(whitelist)@.contains(canister_id)),
        operation is Add && caller != admin ==> final(whitelist)@ == old(whitelist)@ && r == Err::<
            bool,
            SatslinkerError,
        >(SatslinkerError::AccessDenied),
        operation is Add && caller == admin ==> r == Ok::<bool, SatslinkerError>(true) && final(whitelist)@ == (if old(whitelist)@.contains(canister_id) {
            old(whitelist)@
        } else {
            old(whitelist)@.push(canister_id)
        }),
        operation is Remove && caller != admin ==> final(whitelist)@ == old(whitelist)@ && r
            == Err::<bool, SatslinkerError>(SatslinkerError::AccessDenied),
        operation is Remove && caller == admin ==> r == Ok::<bool, SatslinkerError>(true) && final(whitelist)@ == ids_without(old(whitelist)@, canister_id),
{
    match operation {
        WhitelistOperation::Add => {
            if caller != admin {
                return Err(SatslinkerError::AccessDenied);
            }
            if !ids_contains(whitelist, canister_id) {
                whitelist.push(canister_id);
            }
            Ok(true)
        },
        WhitelistOperation::Remove => {
            if caller != admin {
                return Err(SatslinkerError::AccessDenied);
            }
            let filtered = ids_without_exec(whitelist, canister_id);
            *whitelist = filtered;
            Ok(true)
        },
        WhitelistOperation::Check => Ok(ids_contains(whitelist, canister_id)),
    }
}

} // verus!
