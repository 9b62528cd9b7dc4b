//! Who may do what: the owner, the owner of a proposal, and those whom an
//! access controller lists.

use vstd::prelude::*;
use crate::access::{has_access, listed, AccessController};
use crate::error::ErrorCode;
use crate::pubkey::Pubkey;
use crate::state::{Proposal, State};

verus! {

/// Only the owner of the feed passes.
pub fn owner(state: &State, signer: &Pubkey) -> (r: Result<(), ErrorCode>)
    ensures
        match r {
            Ok(_) => signer@ == state.config.owner@,
            Err(e) => e == ErrorCode::Unauthorized && signer@ != state.config.owner@,
        },
{
    if *signer == state.config.owner {
        Ok(())
    } else {
        Err(ErrorCode::Unauthorized)
    }
}

/// Only the owner of the proposal passes.
pub fn proposal_owner(proposal: &Proposal, signer: &Pubkey) -> (r: Result<(), ErrorCode>)
    ensures
        match r {
            Ok(_) => signer@ == proposal.owner@,
            Err(e) => e == ErrorCode::Unauthorized && signer@ != proposal.owner@,
        },
{
    if *signer == proposal.owner {
        Ok(())
    } else {
        Err(ErrorCode::Unauthorized)
    }
}

/// Why `authority` is refused by the access controller at `controller_key`
/// where the one at `expected` is in charge: `InvalidInput` for another
/// controller, `Unauthorized` for somebody who is neither the owner nor listed.
pub open spec fn access_error(
    expected: Pubkey,
    owner: Pubkey,
    controller_key: Pubkey,
    controller: AccessController,
    authority: Pubkey,
) -> Option<ErrorCode> {
    if expected@ != controller_key@ {
        Some(ErrorCode::InvalidInput)
    } else if owner@ == authority@ || listed(controller.access_list@, authority) {
        None
    } else {
        Some(ErrorCode::Unauthorized)
    }
}

/// Checks `authority` against an access controller.
pub fn check_access(
    expected: &Pubkey,
    owner: &Pubkey,
    controller_key: &Pubkey,
    controller: &AccessController,
    authority: &Pubkey,
) -> (r: Result<(), ErrorCode>)
    requires
        controller.wf(),
    ensures
        match r {
            Ok(_) => access_error(*expected, *owner, *controller_key, *controller, *authority)
                is None,
            Err(e) => access_error(*expected, *owner, *controller_key, *controller, *authority)
                == Some(e),
        },
{
    if *expected != *controller_key {
        return Err(ErrorCode::InvalidInput);
    }
    let is_owner = *owner == *authority;
    if is_owner || has_access(controller, authority) {
        Ok(())
    } else {
        Err(ErrorCode::Unauthorized)
    }
}

/// Why `authority` has no access to billing; `None` where it has.
pub open spec fn billing_access_error(
    state: State,
    controller_key: Pubkey,
    controller: AccessController,
    authority: Pubkey,
) -> Option<ErrorCode> {
    access_error(
        state.config.billing_access_controller,
        state.config.owner,
        controller_key,
        controller,
        authority,
    )
}

/// Why `authority` may not request a round; `None` where it may.
pub open spec fn requester_access_error(
    state: State,
    controller_key: Pubkey,
    controller: AccessController,
    authority: Pubkey,
) -> Option<ErrorCode> {
    access_error(
        state.config.requester_access_controller,
        state.config.owner,
        controller_key,
        controller,
        authority,
    )
}

/// The owner and whoever the billing access controller lists pass.
pub fn has_billing_access(
    state: &State,
    controller_key: &Pubkey,
    controller: &AccessController,
    authority: &Pubkey,
) -> (r: Result<(), ErrorCode>)
    requires
        controller.wf(),
    ensures
        match r {
            Ok(_) => billing_access_error(*state, *controller_key, *controller, *authority)
                is None,
            Err(e) => billing_access_error(*state, *controller_key, *controller, *authority)
                == Some(e),
        },
{
    check_access(
        &state.config.billing_access_controller,
        &state.config.owner,
        controller_key,
        controller,
        authority,
    )
}

/// The owner and whoever the requester access controller lists pass.
pub fn has_requester_access(
    state: &State,
    controller_key: &Pubkey,
    controller: &AccessController,
    authority: &Pubkey,
) -> (r: Result<(), ErrorCode>)
    requires
        controller.wf(),
    ensures
        match r {
            Ok(_) => requester_access_error(*state, *controller_key, *controller, *authority)
                is None,
            Err(e) => requester_access_error(*state, *controller_key, *controller, *authority)
                == Some(e),
        },
{
    check_access(
        &state.config.requester_access_controller,
        &state.config.owner,
        controller_key,
        controller,
        authority,
    )
}

} // verus!
