//! A validator that keeps a list of the feeds whose answers deviated too far.

use vstd::prelude::*;
use crate::access::AccessController;
use crate::arrayvec::ArrayVec;
use crate::authority::{access_error, check_access};
use crate::deviation::{is_valid, within_threshold};
use crate::error::ErrorCode;
use crate::pubkey::Pubkey;

verus! {

/// How many flags a validator can hold.
pub const MAX_FLAGS: usize = 128;

pub type Flags = ArrayVec<Pubkey, 128>;

/// The validator's state.
#[derive(Debug)]
pub struct Validator {
    pub owner: Pubkey,
    pub proposed_owner: Pubkey,
    pub raising_access_controller: Pubkey,
    pub lowering_access_controller: Pubkey,
    pub flags: Flags,
}

/// Whether `address` is among `flags`.
pub open spec fn flagged(flags: Seq<Pubkey>, address: Pubkey) -> bool {
    exists|i: int| 0 <= i < flags.len() && (#[trigger] flags[i])@ == address@
}

/// `flags` without those among `lowered`, in the order they had.
pub open spec fn without(flags: Seq<Pubkey>, lowered: Seq<Pubkey>) -> Seq<Pubkey>
    decreases flags.len(),
{
    if flags.len() == 0 {
        Seq::empty()
    } else if flagged(lowered, flags.last()) {
        without(flags.drop_last(), lowered)
    } else {
        without(flags.drop_last(), lowered).push(flags.last())
    }
}

/// What is left of a list is not longer than the list.
pub proof fn lemma_without_len(flags: Seq<Pubkey>, lowered: Seq<Pubkey>)
    ensures
        without(flags, lowered).len() <= flags.len(),
    decreases flags.len(),
{
    if flags.len() > 0 {
        lemma_without_len(flags.drop_last(), lowered);
    }
}

/// Whether `address` is among `list`.
pub fn contains(list: &[Pubkey], address: &Pubkey) -> (r: bool)
    ensures
        r == flagged(list@, *address),
{
    let mut i: usize = 0;
    while i < list.len()
        invariant
            0 <= i <= list@.len(),
            forall|j: int| 0 <= j < i ==> (#[trigger] list@[j])@ != address@,
        decreases list@.len() - i,
    {
        if list[i] == *address {
            return true;
        }
        i += 1;
    }
    false
}

/// A new validator, owned by `owner`, with no flag raised.
pub fn initialize(owner: Pubkey, raising_access_controller: Pubkey, lowering_access_controller: Pubkey) -> (r:
    Validator)
    ensures
        r.flags.wf(),
        r.owner == owner,
        r.proposed_owner@ == Pubkey::default_bytes(),
        r.raising_access_controller == raising_access_controller,
        r.lowering_access_controller == lowering_access_controller,
        r.flags@ == Seq::<Pubkey>::empty(),
{
    Validator {
        owner,
        proposed_owner: Pubkey::default(),
        raising_access_controller,
        lowering_access_controller,
        flags: ArrayVec::new(),
    }
}

/// Proposes a new owner, not the all-zero address. Only the owner may.
pub fn transfer_ownership(state: &mut Validator, authority: &Pubkey, proposed_owner: Pubkey) -> (r:
    Result<(), ErrorCode>)
    ensures
        r == (if authority@ != old(state).owner@ {
            Err::<(), ErrorCode>(ErrorCode::Unauthorized)
        } else if proposed_owner@ == Pubkey::default_bytes() {
            Err::<(), ErrorCode>(ErrorCode::InvalidInput)
        } else {
            Ok::<(), ErrorCode>(())
        }),
        match r {
            Ok(_) => *final(state) == (Validator { proposed_owner, ..*old(state) }),
            Err(_) => *final(state) == *old(state),
        },
{
    if *authority != state.owner {
        return Err(ErrorCode::Unauthorized);
    }
    if proposed_owner.is_default() {
        return Err(ErrorCode::InvalidInput);
    }
    state.proposed_owner = proposed_owner;
    Ok(())
}

/// Makes the proposed owner the owner. Only the proposed owner may.
pub fn accept_ownership(state: &mut Validator, authority: &Pubkey) -> (r: Result<(), ErrorCode>)
    ensures
        match r {
            Ok(_) => {
                &&& authority@ == old(state).proposed_owner@
                &&& final(state).owner == old(state).proposed_owner
                &&& final(state).proposed_owner@ == Pubkey::default_bytes()
                &&& final(state).raising_access_controller == old(state).raising_access_controller
                &&& final(state).lowering_access_controller == old(
                    state,
                ).lowering_access_controller
                &&& final(state).flags == old(state).flags
            },
            Err(e) => e == ErrorCode::Unauthorized && authority@ != old(state).proposed_owner@
                && *final(state) == *old(state),
        },
{
    if *authority != state.proposed_owner {
        return Err(ErrorCode::Unauthorized);
    }
    state.owner = state.proposed_owner;
    state.proposed_owner = Pubkey::default();
    Ok(())
}

/// Puts another access controller in charge of raising flags. Only the owner may.
pub fn set_raising_access_controller(state: &mut Validator, authority: &Pubkey, access_controller: Pubkey) -> (r:
    Result<(), ErrorCode>)
    ensures
        match r {
            Ok(_) => authority@ == old(state).owner@ && *final(state) == (Validator {
                raising_access_controller: access_controller,
                ..*old(state)
            }),
            Err(e) => e == ErrorCode::Unauthorized && authority@ != old(state).owner@ && *final(state) == *old(state),
        },
{
    if *authority != state.owner {
        return Err(ErrorCode::Unauthorized);
    }
    state.raising_access_controller = access_controller;
    Ok(())
}

/// Puts another access controller in charge of lowering flags. Only the owner may.
pub fn set_lowering_access_controller(state: &mut Validator, authority: &Pubkey, access_controller: Pubkey) -> (r:
    Result<(), ErrorCode>)
    ensures
        match r {
            Ok(_) => authority@ == old(state).owner@ && *final(state) == (Validator {
                lowering_access_controller: access_controller,
                ..*old(state)
            }),
            Err(e) => e == ErrorCode::Unauthorized && authority@ != old(state).owner@ && *final(state) == *old(state),
        },
{
    if *authority != state.owner {
        return Err(ErrorCode::Unauthorized);
    }
    state.lowering_access_controller = access_controller;
    Ok(())
}

/// Why an answer is not taken for validation; `None` where it is. A flag
/// that has to be raised needs room in the list.
pub open spec fn validate_error(
    state: Validator,
    controller_key: Pubkey,
    controller: AccessController,
    authority: Pubkey,
    flagging_threshold: u32,
    previous_answer: i128,
    answer: i128,
    address: Pubkey,
) -> Option<ErrorCode> {
    match access_error(
        state.raising_access_controller,
        state.owner,
        controller_key,
        controller,
        authority,
    ) {
        Some(e) => Some(e),
        None => if !within_threshold(flagging_threshold, previous_answer, answer) && !flagged(
            state.flags@,
            address,
        ) && state.flags@.len() >= MAX_FLAGS {
            Some(ErrorCode::Full)
        } else {
            None
        },
    }
}

/// Validates the answer of the feed at `address` against the one before
/// it, and raises the feed's flag where it deviates too far and the flag is
/// not raised yet. The owner may ask for it, and whoever the raising access
/// controller lists.
pub fn validate(
    state: &mut Validator,
    controller_key: &Pubkey,
    controller: &AccessController,
    authority: &Pubkey,
    flagging_threshold: u32,
    previous_answer: i128,
    answer: i128,
    address: Pubkey,
) -> (r: Result<(), ErrorCode>)
    requires
        old(state).flags.wf(),
        controller.wf(),
    ensures
        final(state).flags.wf(),
        final(state).owner == old(state).owner,
        final(state).proposed_owner == old(state).proposed_owner,
        final(state).raising_access_controller == old(state).raising_access_controller,
        final(state).lowering_access_controller == old(state).lowering_access_controller,
        match r {
            Ok(_) => {
                &&& validate_error(
                    *old(state),
                    *controller_key,
                    *controller,
                    *authority,
                    flagging_threshold,
                    previous_answer,
                    answer,
                    address,
                ) is None
                &&& final(state).flags@ == if !within_threshold(
                    flagging_threshold,
                    previous_answer,
                    answer,
                ) && !flagged(old(state).flags@, address) {
                    old(state).flags@.push(address)
                } else {
                    old(state).flags@
                }
            },
            Err(e) => validate_error(
                *old(state),
                *controller_key,
                *controller,
                *authority,
                flagging_threshold,
                previous_answer,
                answer,
                address,
            ) == Some(e) && final(state).flags@ == old(state).flags@,
        },
{
    match check_access(
        &state.raising_access_controller,
        &state.owner,
        controller_key,
        controller,
        authority,
    ) {
        Ok(_) => {},
        Err(e) => {
            return Err(e);
        },
    }
    if !is_valid(flagging_threshold, previous_answer, answer) {
        // raise the flag if it is not raised yet
        let found = contains(state.flags.as_slice(), &address);
        if !found {
            // if the length reaches the capacity, the list is full
            if state.flags.remaining_capacity() == 0 {
                return Err(ErrorCode::Full);
            }
            state.flags.push(address);
        }
    }
    Ok(())
}

/// Lowers the flags of the feeds among `flags`. The owner may, and whoever
/// the lowering access controller lists.
pub fn lower_flags(
    state: &mut Validator,
    controller_key: &Pubkey,
    controller: &AccessController,
    authority: &Pubkey,
    flags: &[Pubkey],
) -> (r: Result<(), ErrorCode>)
    requires
        old(state).flags.wf(),
        controller.wf(),
    ensures
        final(state).flags.wf(),
        final(state).owner == old(state).owner,
        final(state).proposed_owner == old(state).proposed_owner,
        final(state).raising_access_controller == old(state).raising_access_controller,
        final(state).lowering_access_controller == old(state).lowering_access_controller,
        match r {
            Ok(_) => access_error(
                old(state).lowering_access_controller,
                old(state).owner,
                *controller_key,
                *controller,
                *authority,
            ) is None && final(state).flags@ == without(old(state).flags@, flags@),
            Err(e) => access_error(
                old(state).lowering_access_controller,
                old(state).owner,
                *controller_key,
                *controller,
                *authority,
            ) == Some(e) && final(state).flags@ == old(state).flags@,
        },
{
    match check_access(
        &state.lowering_access_controller,
        &state.owner,
        controller_key,
        controller,
        authority,
    ) {
        Ok(_) => {},
        Err(e) => {
            return Err(e);
        },
    }
    let ghost before = state.flags@;
    let mut kept: Vec<Pubkey> = Vec::new();
    let mut i: usize = 0;
    while i < state.flags.len()
        invariant
            0 <= i <= before.len() <= MAX_FLAGS,
            state.flags@ == before,
            kept@ == without(before.take(i as int), flags@),
            state.owner == old(state).owner,
            state.proposed_owner == old(state).proposed_owner,
            state.raising_access_controller == old(state).raising_access_controller,
            state.lowering_access_controller == old(state).lowering_access_controller,
        decreases before.len() - i,
    {
        let flag = state.flags.get(i);
        proof {
            assert(before.take(i + 1).drop_last() =~= before.take(i as int));
            assert(before.take(i + 1).last() == before[i as int]);
        }
        if !contains(flags, &flag) {
            kept.push(flag);
        }
        i += 1;
    }
    proof {
        assert(before.take(i as int) =~= before);
        lemma_without_len(before, flags@);
    }
    state.flags.clear();
    state.flags.extend(kept.as_slice());
    Ok(())
}

} // verus!
