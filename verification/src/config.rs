//! The operations on a feed's configuration other than a change of the
//! oracle set: ownership, access controllers, billing rates and payees.

use vstd::prelude::*;
use crate::access::AccessController;
use crate::arrayvec::ArrayVec;
use crate::authority::{
    billing_access_error, has_billing_access, has_requester_access, owner,
    requester_access_error,
};
use crate::error::ErrorCode;
use crate::event;
use crate::payouts::{
    leftover_due, pay_remaining_impl, payees_match, payout_payments, payout_refusal,
    prepare_payout, settle_oracles, settled, Payment,
};
use crate::pubkey::Pubkey;
use crate::state::{
    signer_keys, transmitter_keys, Billing, Config, LeftoverPayment, OffchainConfig, Oracle,
    State,
};
use crate::transmit::{find_transmitter, has_transmitter, transmitter_position};

verus! {

/// What the feed needs to know of a token account.
#[derive(Clone, Copy, Debug)]
pub struct TokenAccount {
    /// The address of the account.
    pub key: Pubkey,
    /// The token that it holds.
    pub mint: Pubkey,
    /// Who may move its tokens.
    pub owner: Pubkey,
}

/// The newest configuration, for the oracles to look up.
#[derive(Clone, Copy, Debug)]
pub struct LatestConfig {
    pub config_count: u32,
    pub config_digest: [u8; 32],
    pub block_number: u64,
}

/// Whether only the configuration differs between two states.
pub open spec fn rest_unchanged(before: State, after: State) -> bool {
    &&& after.version == before.version
    &&& after.vault_nonce == before.vault_nonce
    &&& after.feed == before.feed
    &&& after.offchain_config == before.offchain_config
    &&& after.oracles == before.oracles
    &&& after.leftover_payments == before.leftover_payments
}

/// The state of a new feed: no oracles, no rounds, nothing owed.
pub fn initialize(
    feed: Pubkey,
    vault_nonce: u8,
    owner: Pubkey,
    token_mint: Pubkey,
    token_vault: Pubkey,
    requester_access_controller: Pubkey,
    billing_access_controller: Pubkey,
    min_answer: i128,
    max_answer: i128,
) -> (state: State)
    ensures
        state.wf(),
        state.version == 1,
        state.vault_nonce == vault_nonce,
        state.feed == feed,
        state.oracles@ == Seq::<Oracle>::empty(),
        state.leftover_payments@.len() == 0,
        state.offchain_config.version == 0,
        state.offchain_config.bytes@ == Seq::<u8>::empty(),
        state.config.owner == owner,
        state.config.proposed_owner@ == Pubkey::default_bytes(),
        state.config.token_mint == token_mint,
        state.config.token_vault == token_vault,
        state.config.requester_access_controller == requester_access_controller,
        state.config.billing_access_controller == billing_access_controller,
        state.config.min_answer == min_answer,
        state.config.max_answer == max_answer,
        state.config.f == 0,
        state.config.round == 0,
        state.config.epoch == 0,
        state.config.latest_aggregator_round_id == 0,
        state.config.latest_transmitter@ == Pubkey::default_bytes(),
        state.config.config_count == 0,
        state.config.latest_config_digest@ == Seq::new(32, |i: int| 0u8),
        state.config.latest_config_block_number == 0,
        state.config.billing == (Billing {
            observation_payment_gjuels: 0,
            transmission_payment_gjuels: 0,
        }),
        state.config.validator@ == Pubkey::default_bytes(),
        state.config.flagging_threshold == 0,
{
    let digest = [0u8; 32];
    proof {
        assert(digest@ =~= Seq::new(32, |i: int| 0u8));
    }
    let state = State {
        version: 1,
        vault_nonce,
        feed,
        config: Config {
            owner,
            proposed_owner: Pubkey::default(),
            token_mint,
            token_vault,
            requester_access_controller,
            billing_access_controller,
            min_answer,
            max_answer,
            f: 0,
            round: 0,
            epoch: 0,
            latest_aggregator_round_id: 0,
            latest_transmitter: Pubkey::default(),
            config_count: 0,
            latest_config_digest: digest,
            latest_config_block_number: 0,
            billing: Billing { observation_payment_gjuels: 0, transmission_payment_gjuels: 0 },
            validator: Pubkey::default(),
            flagging_threshold: 0,
        },
        offchain_config: OffchainConfig { version: 0, bytes: ArrayVec::new() },
        oracles: ArrayVec::new(),
        leftover_payments: ArrayVec::new(),
    };
    proof {
        assert(signer_keys(state.oracles@) =~= Seq::<Seq<u8>>::empty());
        assert(transmitter_keys(state.oracles@) =~= Seq::<Seq<u8>>::empty());
    }
    state
}

/// Proposes a new owner. Only the owner may, and not the all-zero address.
pub fn transfer_ownership(state: &mut State, authority: &Pubkey, proposed_owner: Pubkey) -> (r:
    Result<(), ErrorCode>)
    ensures
        rest_unchanged(*old(state), *final(state)),
        match r {
            Ok(_) => final(state).config == (Config { proposed_owner, ..old(state).config }),
            Err(_) => final(state).config == old(state).config,
        },
        r == (if authority@ != old(state).config.owner@ {
            Err::<(), ErrorCode>(ErrorCode::Unauthorized)
        } else if proposed_owner@ == Pubkey::default_bytes() {
            Err::<(), ErrorCode>(ErrorCode::InvalidInput)
        } else {
            Ok::<(), ErrorCode>(())
        }),
{
    match owner(state, authority) {
        Ok(_) => {},
        Err(e) => {
            return Err(e);
        },
    }
    if proposed_owner.is_default() {
        return Err(ErrorCode::InvalidInput);
    }
    state.config.proposed_owner = proposed_owner;
    Ok(())
}

/// Makes the proposed owner the owner. Only the proposed owner may.
pub fn accept_ownership(state: &mut State, authority: &Pubkey) -> (r: Result<(), ErrorCode>)
    ensures
        rest_unchanged(*old(state), *final(state)),
        match r {
            Ok(_) => {
                &&& authority@ == old(state).config.proposed_owner@
                &&& final(state).config.owner == old(state).config.proposed_owner
                &&& final(state).config.proposed_owner@ == Pubkey::default_bytes()
                &&& final(state).config == (Config {
                    owner: final(state).config.owner,
                    proposed_owner: final(state).config.proposed_owner,
                    ..old(state).config
                })
            },
            Err(e) => e == ErrorCode::Unauthorized && authority@ != old(
                state,
            ).config.proposed_owner@ && final(state).config == old(state).config,
        },
{
    if *authority != state.config.proposed_owner {
        return Err(ErrorCode::Unauthorized);
    }
    state.config.owner = state.config.proposed_owner;
    state.config.proposed_owner = Pubkey::default();
    Ok(())
}

/// Puts another access controller in charge of requests for rounds. Only
/// the owner may.
pub fn set_requester_access_controller(
    state: &mut State,
    authority: &Pubkey,
    access_controller: Pubkey,
) -> (r: Result<(), ErrorCode>)
    ensures
        rest_unchanged(*old(state), *final(state)),
        match r {
            Ok(_) => authority@ == old(state).config.owner@ && final(state).config == (Config {
                requester_access_controller: access_controller,
                ..old(state).config
            }),
            Err(e) => e == ErrorCode::Unauthorized && authority@ != old(state).config.owner@
                && final(state).config == old(state).config,
        },
{
    match owner(state, authority) {
        Ok(_) => {},
        Err(e) => {
            return Err(e);
        },
    }
    state.config.requester_access_controller = access_controller;
    Ok(())
}

/// Puts another access controller in charge of billing. Only the owner may.
pub fn set_billing_access_controller(
    state: &mut State,
    authority: &Pubkey,
    access_controller: Pubkey,
) -> (r: Result<(), ErrorCode>)
    ensures
        rest_unchanged(*old(state), *final(state)),
        match r {
            Ok(_) => authority@ == old(state).config.owner@ && final(state).config == (Config {
                billing_access_controller: access_controller,
                ..old(state).config
            }),
            Err(e) => e == ErrorCode::Unauthorized && authority@ != old(state).config.owner@
                && final(state).config == old(state).config,
        },
{
    match owner(state, authority) {
        Ok(_) => {},
        Err(e) => {
            return Err(e);
        },
    }
    state.config.billing_access_controller = access_controller;
    Ok(())
}

/// Names the validator that is told of every answer, and the threshold of
/// deviation that it is given. The all-zero address stands for no validator.
/// Only the owner may.
pub fn set_validator_config(
    state: &mut State,
    authority: &Pubkey,
    validator: Pubkey,
    flagging_threshold: u32,
) -> (r: Result<(), ErrorCode>)
    ensures
        rest_unchanged(*old(state), *final(state)),
        match r {
            Ok(_) => authority@ == old(state).config.owner@ && final(state).config == (Config {
                validator,
                flagging_threshold,
                ..old(state).config
            }),
            Err(e) => e == ErrorCode::Unauthorized && authority@ != old(state).config.owner@
                && final(state).config == old(state).config,
        },
{
    match owner(state, authority) {
        Ok(_) => {},
        Err(e) => {
            return Err(e);
        },
    }
    state.config.validator = validator;
    state.config.flagging_threshold = flagging_threshold;
    Ok(())
}

/// Asks the oracles for a new round: gives the announcement to make. The
/// owner may, and whoever the requester access controller lists.
pub fn request_new_round(
    state: &State,
    controller_key: &Pubkey,
    controller: &AccessController,
    authority: &Pubkey,
) -> (r: Result<event::RoundRequested, ErrorCode>)
    requires
        controller.wf(),
    ensures
        match r {
            Ok(requested) => {
                &&& requester_access_error(*state, *controller_key, *controller, *authority)
                    is None
                &&& requested.requester == *authority
                &&& requested.config_digest == state.config.latest_config_digest
                &&& requested.round == state.config.round
                &&& requested.epoch == state.config.epoch
            },
            Err(e) => requester_access_error(*state, *controller_key, *controller, *authority)
                == Some(e),
        },
{
    match has_requester_access(state, controller_key, controller, authority) {
        Ok(_) => {},
        Err(e) => {
            return Err(e);
        },
    }
    Ok(
        event::RoundRequested {
            requester: *authority,
            config_digest: state.config.latest_config_digest,
            round: state.config.round,
            epoch: state.config.epoch,
        },
    )
}

/// Why a payout on somebody's request is refused; `None` where it is not.
pub open spec fn pay_oracles_error(
    state: State,
    controller_key: Pubkey,
    controller: AccessController,
    authority: Pubkey,
    payees: Seq<Pubkey>,
) -> Option<ErrorCode> {
    match billing_access_error(state, controller_key, controller, authority) {
        Some(e) => Some(e),
        None => payout_refusal(state, payees),
    }
}

/// Pays every oracle what it is owed: see `pay_oracles_impl`. The owner may
/// ask for it, and whoever the billing access controller lists.
pub fn pay_oracles(
    state: &mut State,
    controller_key: &Pubkey,
    controller: &AccessController,
    authority: &Pubkey,
    payees: &[Pubkey],
) -> (r: Result<Vec<Payment>, ErrorCode>)
    requires
        old(state).wf(),
        controller.wf(),
    ensures
        final(state).wf(),
        match r {
            Ok(payments) => {
                &&& pay_oracles_error(*old(state), *controller_key, *controller, *authority, payees@)
                    is None
                &&& payments@ == payout_payments(*old(state))
                &&& settled(*old(state), *final(state))
            },
            Err(e) => pay_oracles_error(
                *old(state),
                *controller_key,
                *controller,
                *authority,
                payees@,
            ) == Some(e) && *final(state) == *old(state),
        },
{
    match has_billing_access(state, controller_key, controller, authority) {
        Ok(_) => {},
        Err(e) => {
            return Err(e);
        },
    }
    let payments = match prepare_payout(state, payees) {
        Ok(payments) => payments,
        Err(e) => {
            return Err(e);
        },
    };
    settle_oracles(state);
    Ok(payments)
}

/// Why a payout of the leftover payments is refused; `None` where it is not.
pub open spec fn pay_remaining_error(
    state: State,
    controller_key: Pubkey,
    controller: AccessController,
    authority: Pubkey,
    payees: Seq<Pubkey>,
) -> Option<ErrorCode> {
    match billing_access_error(state, controller_key, controller, authority) {
        Some(e) => Some(e),
        None => if payees_match(state.leftover_payments@, payees) {
            None
        } else {
            Some(ErrorCode::InvalidInput)
        },
    }
}

/// Pays what is left over from the oracle set before the current one: see
/// `pay_remaining_impl`. The owner may ask for it, and whoever the billing
/// access controller lists.
pub fn pay_remaining(
    state: &mut State,
    controller_key: &Pubkey,
    controller: &AccessController,
    authority: &Pubkey,
    payees: &[Pubkey],
) -> (r: Result<Vec<Payment>, ErrorCode>)
    requires
        old(state).wf(),
        controller.wf(),
    ensures
        final(state).wf(),
        match r {
            Ok(payments) => {
                &&& pay_remaining_error(
                    *old(state),
                    *controller_key,
                    *controller,
                    *authority,
                    payees@,
                ) is None
                &&& payments@ == leftover_due(old(state).leftover_payments@)
                &&& final(state).leftover_payments@ == Seq::<LeftoverPayment>::empty()
                &&& final(state).oracles == old(state).oracles
                &&& final(state).config == old(state).config
                &&& final(state).version == old(state).version
                &&& final(state).vault_nonce == old(state).vault_nonce
                &&& final(state).feed == old(state).feed
                &&& final(state).offchain_config == old(state).offchain_config
            },
            Err(e) => pay_remaining_error(
                *old(state),
                *controller_key,
                *controller,
                *authority,
                payees@,
            ) == Some(e) && *final(state) == *old(state),
        },
{
    match has_billing_access(state, controller_key, controller, authority) {
        Ok(_) => {},
        Err(e) => {
            return Err(e);
        },
    }
    pay_remaining_impl(state, payees)
}

/// Sets the billing rates, after every oracle was paid at the rates that
/// held so far. Gives the payments to make and the announcement. The owner
/// may, and whoever the billing access controller lists.
pub fn set_billing(
    state: &mut State,
    controller_key: &Pubkey,
    controller: &AccessController,
    authority: &Pubkey,
    payees: &[Pubkey],
    observation_payment_gjuels: u32,
    transmission_payment_gjuels: u32,
) -> (r: Result<(Vec<Payment>, event::SetBilling), ErrorCode>)
    requires
        old(state).wf(),
        controller.wf(),
    ensures
        final(state).wf(),
        match r {
            Ok((payments, announced)) => {
                &&& pay_oracles_error(*old(state), *controller_key, *controller, *authority, payees@)
                    is None
                &&& payments@ == payout_payments(*old(state))
                &&& final(state).oracles@ == crate::payouts::all_paid(
                    old(state).oracles@,
                    old(state).config.latest_aggregator_round_id,
                )
                &&& final(state).config == (Config {
                    billing: Billing { observation_payment_gjuels, transmission_payment_gjuels },
                    ..old(state).config
                })
                &&& final(state).version == old(state).version
                &&& final(state).vault_nonce == old(state).vault_nonce
                &&& final(state).feed == old(state).feed
                &&& final(state).offchain_config == old(state).offchain_config
                &&& final(state).leftover_payments == old(state).leftover_payments
                &&& announced == (event::SetBilling {
                    observation_payment_gjuels,
                    transmission_payment_gjuels,
                })
            },
            Err(e) => pay_oracles_error(
                *old(state),
                *controller_key,
                *controller,
                *authority,
                payees@,
            ) == Some(e) && *final(state) == *old(state),
        },
{
    // first pay out the oracles at the rates so far
    let payments = match pay_oracles(state, controller_key, controller, authority, payees) {
        Ok(payments) => payments,
        Err(e) => {
            return Err(e);
        },
    };
    // then update the rates
    state.config.billing.observation_payment_gjuels = observation_payment_gjuels;
    state.config.billing.transmission_payment_gjuels = transmission_payment_gjuels;
    Ok((payments, event::SetBilling { observation_payment_gjuels, transmission_payment_gjuels }))
}

/// Why a transfer of an oracle's payee is refused; `None` where it is not.
pub open spec fn transfer_payeeship_error(
    state: State,
    transmitter: Pubkey,
    payee: TokenAccount,
    proposed_payee: TokenAccount,
    authority: Pubkey,
) -> Option<ErrorCode> {
    if payee.key@ == proposed_payee.key@ {
        Some(ErrorCode::InvalidInput)
    } else if proposed_payee.mint@ != state.config.token_mint@ {
        Some(ErrorCode::InvalidInput)
    } else if !has_transmitter(state.oracles@, transmitter@) {
        Some(ErrorCode::InvalidInput)
    } else if state.oracles@[transmitter_position(state.oracles@, transmitter@)].payee@
        != payee.key@ {
        Some(ErrorCode::InvalidInput)
    } else if payee.owner@ != authority@ {
        Some(ErrorCode::Unauthorized)
    } else {
        None
    }
}

/// Proposes another payee for the oracle that transmits with `transmitter`.
/// Only the owner of the current payee account may, and only for an account
/// of the feed's token other than the current one.
pub fn transfer_payeeship(
    state: &mut State,
    transmitter: &Pubkey,
    payee: &TokenAccount,
    proposed_payee: &TokenAccount,
    authority: &Pubkey,
) -> (r: Result<(), ErrorCode>)
    requires
        old(state).wf(),
    ensures
        final(state).wf(),
        final(state).config == old(state).config,
        final(state).version == old(state).version,
        final(state).vault_nonce == old(state).vault_nonce,
        final(state).feed == old(state).feed,
        final(state).offchain_config == old(state).offchain_config,
        final(state).leftover_payments == old(state).leftover_payments,
        match r {
            Ok(_) => {
                let place = transmitter_position(old(state).oracles@, transmitter@);
                &&& transfer_payeeship_error(
                    *old(state),
                    *transmitter,
                    *payee,
                    *proposed_payee,
                    *authority,
                ) is None
                &&& final(state).oracles@ == old(state).oracles@.update(
                    place,
                    Oracle { proposed_payee: proposed_payee.key, ..old(state).oracles@[place] },
                )
            },
            Err(e) => transfer_payeeship_error(
                *old(state),
                *transmitter,
                *payee,
                *proposed_payee,
                *authority,
            ) == Some(e) && final(state).oracles@ == old(state).oracles@,
        },
{
    // can't transfer to self
    if payee.key == proposed_payee.key {
        return Err(ErrorCode::InvalidInput);
    }
    // the token account has to be one of the feed's token
    if proposed_payee.mint != state.config.token_mint {
        return Err(ErrorCode::InvalidInput);
    }
    let place = match find_transmitter(state.oracles.as_slice(), transmitter) {
        Some(place) => place,
        None => {
            return Err(ErrorCode::InvalidInput);
        },
    };
    let mut oracle = state.oracles.get(place);
    if oracle.payee != payee.key {
        return Err(ErrorCode::InvalidInput);
    }
    // the request has to be signed by the authority of the token account
    if payee.owner != *authority {
        return Err(ErrorCode::Unauthorized);
    }
    oracle.proposed_payee = proposed_payee.key;
    proof {
        let before = old(state).oracles@;
        let after = before.update(place as int, oracle);
        assert(signer_keys(after) =~= signer_keys(before));
        assert(transmitter_keys(after) =~= transmitter_keys(before));
    }
    state.oracles.set(place, oracle);
    Ok(())
}

/// Why the acceptance of a proposed payee is refused; `None` where it is not.
pub open spec fn accept_payeeship_error(
    state: State,
    transmitter: Pubkey,
    proposed_payee: TokenAccount,
    authority: Pubkey,
) -> Option<ErrorCode> {
    if !has_transmitter(state.oracles@, transmitter@) {
        Some(ErrorCode::InvalidInput)
    } else if state.oracles@[transmitter_position(state.oracles@, transmitter@)].proposed_payee@
        != proposed_payee.key@ {
        Some(ErrorCode::InvalidInput)
    } else if proposed_payee.owner@ != authority@ {
        Some(ErrorCode::Unauthorized)
    } else {
        None
    }
}

/// Makes the proposed payee the payee of the oracle that transmits with
/// `transmitter`. Only the owner of the proposed account may.
pub fn accept_payeeship(
    state: &mut State,
    transmitter: &Pubkey,
    proposed_payee: &TokenAccount,
    authority: &Pubkey,
) -> (r: Result<(), ErrorCode>)
    requires
        old(state).wf(),
    ensures
        final(state).wf(),
        final(state).config == old(state).config,
        final(state).version == old(state).version,
        final(state).vault_nonce == old(state).vault_nonce,
        final(state).feed == old(state).feed,
        final(state).offchain_config == old(state).offchain_config,
        final(state).leftover_payments == old(state).leftover_payments,
        match r {
            Ok(_) => {
                let place = transmitter_position(old(state).oracles@, transmitter@);
                let after = final(state).oracles@[place];
                &&& accept_payeeship_error(*old(state), *transmitter, *proposed_payee, *authority)
                    is None
                &&& after.payee == old(state).oracles@[place].proposed_payee
                &&& after.proposed_payee@ == Pubkey::default_bytes()
                &&& final(state).oracles@ == old(state).oracles@.update(
                    place,
                    Oracle {
                        payee: after.payee,
                        proposed_payee: after.proposed_payee,
                        ..old(state).oracles@[place]
                    },
                )
            },
            Err(e) => accept_payeeship_error(
                *old(state),
                *transmitter,
                *proposed_payee,
                *authority,
            ) == Some(e) && final(state).oracles@ == old(state).oracles@,
        },
{
    let place = match find_transmitter(state.oracles.as_slice(), transmitter) {
        Some(place) => place,
        None => {
            return Err(ErrorCode::InvalidInput);
        },
    };
    let mut oracle = state.oracles.get(place);
    if oracle.proposed_payee != proposed_payee.key {
        return Err(ErrorCode::InvalidInput);
    }
    // the request has to be signed by the authority of the token account
    if proposed_payee.owner != *authority {
        return Err(ErrorCode::Unauthorized);
    }
    oracle.payee = oracle.proposed_payee;
    oracle.proposed_payee = Pubkey::default();
    proof {
        let before = old(state).oracles@;
        let after = before.update(place as int, oracle);
        assert(signer_keys(after) =~= signer_keys(before));
        assert(transmitter_keys(after) =~= transmitter_keys(before));
    }
    state.oracles.set(place, oracle);
    Ok(())
}

/// The count, the digest and the block of the newest configuration.
pub fn latest_config_details(state: &State) -> (r: LatestConfig)
    ensures
        r.config_count == state.config.config_count,
        r.config_digest == state.config.latest_config_digest,
        r.block_number == state.config.latest_config_block_number,
{
    LatestConfig {
        config_count: state.config.config_count,
        config_digest: state.config.latest_config_digest,
        block_number: state.config.latest_config_block_number,
    }
}

} // verus!
