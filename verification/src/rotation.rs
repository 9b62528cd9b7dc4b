//! Replacing the oracle set: by accepting a finalized proposal, or directly.
//! Either way nothing that the outgoing oracles are owed is dropped.

use vstd::prelude::*;
use crate::authority::owner;
use crate::billing::{calculate_owed_payment_gjuels, owed_payment};
use crate::bytes::bytes_eq;
use crate::config::TokenAccount;
use crate::crypto::sha256_digest;
use crate::digest::{config_digest, config_digest_preimage};
use crate::error::ErrorCode;
use crate::event;
use crate::oracle_set::{new_signer_keys, new_transmitter_keys, sort_oracles};
use crate::payouts::{
    has_payments_remaining, payments_remaining, payout_payments, payout_refusal, pay_oracles_impl,
    prepare_payout, settled, Payment,
};
use crate::proposal::{
    oracle_count_error, check_oracle_count, proposed_signer_keys, proposed_transmitter_keys,
};
use crate::pubkey::Pubkey;
use crate::state::{
    pairwise_distinct, signer_keys, transmitter_keys, Config, LeftoverPayment, NewOracle, Oracle,
    Proposal, ProposedOracle, SigningKey, State, MAX_OFFCHAIN_CONFIG,
};

verus! {

/// Whether `oracle` is the staged oracle `staged`, taken into the set at
/// the round `from_round_id` with nothing accrued.
pub open spec fn accepts(oracle: Oracle, staged: ProposedOracle, from_round_id: u32) -> bool {
    &&& oracle.signer == staged.signer
    &&& oracle.transmitter == staged.transmitter
    &&& oracle.payee == staged.payee
    &&& oracle.proposed_payee@ == Pubkey::default_bytes()
    &&& oracle.from_round_id == from_round_id
    &&& oracle.payment_gjuels == 0
}

/// Whether `oracles` are the staged oracles `staged`, in their order.
pub open spec fn accepts_all(oracles: Seq<Oracle>, staged: Seq<ProposedOracle>, from_round_id: u32) -> bool {
    &&& oracles.len() == staged.len()
    &&& forall|i: int| 0 <= i < oracles.len() ==> accepts(#[trigger] oracles[i], staged[i], from_round_id)
}

/// The signer keys of `oracles` as the announcement lists them.
pub open spec fn announced_signers(signers: Seq<[u8; 20]>, oracles: Seq<Oracle>) -> bool {
    &&& signers.len() == oracles.len()
    &&& forall|i: int| 0 <= i < signers.len() ==> #[trigger] signers[i] == oracles[i].signer.key
}

/// Why a proposal is not accepted; `None` where it is.
pub open spec fn accept_proposal_error(
    state: State,
    proposal: Proposal,
    authority: Pubkey,
    digest: Seq<u8>,
    payees: Seq<Pubkey>,
) -> Option<ErrorCode> {
    if authority@ != state.config.owner@ {
        Some(ErrorCode::Unauthorized)
    } else if digest.len() != 32 {
        Some(ErrorCode::InvalidInput)
    } else if payments_remaining(state.leftover_payments@) {
        Some(ErrorCode::PaymentsRemaining)
    } else if payout_refusal(state, payees) is Some {
        payout_refusal(state, payees)
    } else if proposal.state != Proposal::FINALIZED {
        Some(ErrorCode::InvalidInput)
    } else if proposal.spec_digest() != digest {
        Some(ErrorCode::DigestMismatch)
    } else if proposal.token_mint@ != state.config.token_mint@ {
        Some(ErrorCode::InvalidTokenAccount)
    } else {
        None
    }
}

/// The signer keys of the oracles, for the announcement of a configuration.
pub fn collect_signer_keys(oracles: &[Oracle]) -> (signers: Vec<[u8; 20]>)
    ensures
        announced_signers(signers@, oracles@),
{
    let mut signers: Vec<[u8; 20]> = Vec::new();
    let mut i: usize = 0;
    while i < oracles.len()
        invariant
            0 <= i <= oracles@.len(),
            signers@.len() == i,
            forall|j: int| 0 <= j < i ==> #[trigger] signers@[j] == oracles@[j].signer.key,
        decreases oracles@.len() - i,
    {
        signers.push(oracles[i].signer.key);
        i += 1;
    }
    signers
}

/// Takes the new configuration into effect: counts it, dates it to `slot`,
/// and computes its digest for the aggregator at `aggregator` under the
/// program `program_id`.
pub fn seal_config(state: &mut State, program_id: &Pubkey, aggregator: &Pubkey, slot: u64)
    requires
        old(state).wf(),
        old(state).config.config_count < u32::MAX,
    ensures
        final(state).wf(),
        final(state).config.latest_config_digest@ == config_digest(
            program_id@,
            aggregator@,
            (old(state).config.config_count + 1) as u32,
            old(state).oracles@,
            old(state).config.f,
            old(state).config.min_answer,
            old(state).config.max_answer,
            old(state).offchain_config.version,
            old(state).offchain_config.bytes@,
        ),
        final(state).config.latest_config_digest@[0] == 0x00,
        final(state).config.latest_config_digest@[1] == 0x03,
        sha256_digest(
            config_digest_preimage(
                program_id@,
                aggregator@,
                (old(state).config.config_count + 1) as u32,
                old(state).oracles@,
                old(state).config.f,
                old(state).config.min_answer,
                old(state).config.max_answer,
                old(state).offchain_config.version,
                old(state).offchain_config.bytes@,
            ),
        ).len() == 32,
        final(state).config == (Config {
            config_count: (old(state).config.config_count + 1) as u32,
            latest_config_block_number: slot,
            latest_config_digest: final(state).config.latest_config_digest,
            ..old(state).config
        }),
        final(state).version == old(state).version,
        final(state).vault_nonce == old(state).vault_nonce,
        final(state).feed == old(state).feed,
        final(state).offchain_config == old(state).offchain_config,
        final(state).oracles == old(state).oracles,
        final(state).leftover_payments == old(state).leftover_payments,
{
    state.config.latest_config_block_number = slot;
    state.config.config_count = state.config.config_count + 1;
    let config_digest = state.config.config_digest_from_data(
        program_id,
        aggregator,
        &state.offchain_config,
        state.oracles.as_slice(),
    );
    state.config.latest_config_digest = config_digest;
}

/// Accepts a finalized proposal into the configuration. `digest` has to be
/// the proposal's digest, and `payees` the payees of the current oracles,
/// which are paid first; while a leftover payment of an earlier set is
/// unpaid the change is refused with `PaymentsRemaining`. Epoch and round
/// start over. Gives the payments to make and the announcement. Only the
/// owner may.
pub fn accept_proposal(
    state: &mut State,
    proposal: &Proposal,
    authority: &Pubkey,
    digest: &[u8],
    payees: &[Pubkey],
    program_id: &Pubkey,
    aggregator: &Pubkey,
    slot: u64,
) -> (r: Result<(Vec<Payment>, event::SetConfig), ErrorCode>)
    requires
        old(state).wf(),
        proposal.wf(),
        old(state).config.config_count < u32::MAX,
    ensures
        final(state).wf(),
        match r {
            Ok((payments, announced)) => {
                &&& accept_proposal_error(*old(state), *proposal, *authority, digest@, payees@)
                    is None
                &&& payments@ == payout_payments(*old(state))
                &&& accepts_all(
                    final(state).oracles@,
                    proposal.oracles@,
                    old(state).config.latest_aggregator_round_id,
                )
                &&& final(state).offchain_config.version == proposal.offchain_config.version
                &&& final(state).offchain_config.bytes@ == proposal.offchain_config.bytes@
                &&& final(state).config == (Config {
                    f: proposal.f,
                    epoch: 0,
                    round: 0,
                    config_count: (old(state).config.config_count + 1) as u32,
                    latest_config_block_number: slot,
                    latest_config_digest: final(state).config.latest_config_digest,
                    ..old(state).config
                })
                &&& final(state).config.latest_config_digest@ == config_digest(
                    program_id@,
                    aggregator@,
                    (old(state).config.config_count + 1) as u32,
                    final(state).oracles@,
                    proposal.f,
                    old(state).config.min_answer,
                    old(state).config.max_answer,
                    proposal.offchain_config.version,
                    proposal.offchain_config.bytes@,
                )
                &&& final(state).config.latest_config_digest@[0] == 0x00
                &&& final(state).config.latest_config_digest@[1] == 0x03
                &&& sha256_digest(
                    config_digest_preimage(
                        program_id@,
                        aggregator@,
                        (old(state).config.config_count + 1) as u32,
                        final(state).oracles@,
                        proposal.f,
                        old(state).config.min_answer,
                        old(state).config.max_answer,
                        proposal.offchain_config.version,
                        proposal.offchain_config.bytes@,
                    ),
                ).len() == 32
                &&& final(state).version == old(state).version
                &&& final(state).vault_nonce == old(state).vault_nonce
                &&& final(state).feed == old(state).feed
                &&& final(state).leftover_payments == old(state).leftover_payments
                &&& announced.config_digest == final(state).config.latest_config_digest
                &&& announced.f == proposal.f
                &&& announced_signers(announced.signers@, final(state).oracles@)
            },
            Err(e) => accept_proposal_error(*old(state), *proposal, *authority, digest@, payees@)
                == Some(e) && *final(state) == *old(state),
        },
{
    match owner(state, authority) {
        Ok(_) => {},
        Err(e) => {
            return Err(e);
        },
    }
    if digest.len() != 32 {
        return Err(ErrorCode::InvalidInput);
    }
    // no leftover payments may remain
    if has_payments_remaining(state.leftover_payments.as_slice()) {
        return Err(ErrorCode::PaymentsRemaining);
    }
    // what the current oracles are owed is paid first
    let payments = match prepare_payout(state, payees) {
        Ok(payments) => payments,
        Err(e) => {
            return Err(e);
        },
    };
    // the proposal has to be finalized
    if proposal.state != Proposal::FINALIZED {
        return Err(ErrorCode::InvalidInput);
    }
    // the digest has to match
    let proposal_digest = proposal.digest();
    if !bytes_eq(proposal_digest.as_slice(), digest) {
        return Err(ErrorCode::DigestMismatch);
    }
    // the proposed payees have to hold the aggregator's token
    if proposal.token_mint != state.config.token_mint {
        return Err(ErrorCode::InvalidTokenAccount);
    }

    // move the staging area onto the configuration
    state.offchain_config.version = proposal.offchain_config.version;
    state.offchain_config.bytes.clear();
    state.offchain_config.bytes.extend(proposal.offchain_config.bytes.as_slice());
    state.config.f = proposal.f;
    // epoch and round start over
    state.config.epoch = 0;
    state.config.round = 0;

    let from_round_id = state.config.latest_aggregator_round_id;
    let staged = proposal.oracles.as_slice();
    state.oracles.clear();
    let mut i: usize = 0;
    while i < staged.len()
        invariant
            0 <= i <= staged@.len() <= 19,
            staged@ == proposal.oracles@,
            state.oracles.wf(),
            state.oracles@.len() == i,
            forall|j: int| 0 <= j < i ==> accepts(#[trigger] state.oracles@[j], staged@[j], from_round_id),
            state.config == (Config { f: proposal.f, epoch: 0, round: 0, ..old(state).config }),
            state.version == old(state).version,
            state.vault_nonce == old(state).vault_nonce,
            state.feed == old(state).feed,
            state.leftover_payments == old(state).leftover_payments,
            state.leftover_payments.wf(),
            state.offchain_config.wf(),
            state.offchain_config.version == proposal.offchain_config.version,
            state.offchain_config.bytes@ == proposal.offchain_config.bytes@,
        decreases staged@.len() - i,
    {
        let oracle = staged[i];
        state.oracles.push(
            Oracle {
                signer: oracle.signer,
                transmitter: oracle.transmitter,
                payee: oracle.payee,
                proposed_payee: Pubkey::default(),
                from_round_id,
                payment_gjuels: 0,
            },
        );
        i += 1;
    }
    // the proposal holds the oracles sorted by signer key
    proof {
        assert(signer_keys(state.oracles@) =~= proposed_signer_keys(staged@));
        assert(transmitter_keys(state.oracles@) =~= proposed_transmitter_keys(staged@));
    }
    seal_config(state, program_id, aggregator, slot);

    let signers = collect_signer_keys(state.oracles.as_slice());
    Ok(
        (
            payments,
            event::SetConfig {
                config_digest: state.config.latest_config_digest,
                f: state.config.f,
                signers,
            },
        ),
    )
}

/// `Overflow` where what one of the oracles is owed cannot be computed;
/// `None` where it can be for all.
pub open spec fn snapshot_error(oracles: Seq<Oracle>, rate: u32, latest_round_id: u32) -> Option<
    ErrorCode,
> {
    if exists|i: int|
        0 <= i < oracles.len() && owed_payment(rate, #[trigger] oracles[i], latest_round_id)
            is None {
        Some(ErrorCode::Overflow)
    } else {
        None
    }
}

/// Whether `leftovers` holds what each of `oracles` is owed, in their order.
pub open spec fn snapshots(
    leftovers: Seq<LeftoverPayment>,
    oracles: Seq<Oracle>,
    rate: u32,
    latest_round_id: u32,
) -> bool {
    &&& leftovers.len() == oracles.len()
    &&& forall|i: int|
        0 <= i < leftovers.len() ==> (#[trigger] leftovers[i]).payee == oracles[i].payee && Some(
            leftovers[i].amount,
        ) == owed_payment(rate, oracles[i], latest_round_id)
}

/// Why a new configuration is refused; `None` where it is not.
pub open spec fn set_config_error(
    state: State,
    authority: Pubkey,
    new_oracles: Seq<NewOracle>,
    f: u8,
    offchain_config: Seq<u8>,
) -> Option<ErrorCode> {
    if authority@ != state.config.owner@ {
        Some(ErrorCode::Unauthorized)
    } else if oracle_count_error(new_oracles.len(), f) is Some {
        oracle_count_error(new_oracles.len(), f)
    } else if offchain_config.len() > MAX_OFFCHAIN_CONFIG {
        Some(ErrorCode::InvalidInput)
    } else if payments_remaining(state.leftover_payments@) {
        Some(ErrorCode::PaymentsRemaining)
    } else if snapshot_error(
        state.oracles@,
        state.config.billing.observation_payment_gjuels,
        state.config.latest_aggregator_round_id,
    ) is Some {
        Some(ErrorCode::Overflow)
    } else if !pairwise_distinct(new_signer_keys(new_oracles)) {
        Some(ErrorCode::DuplicateSigner)
    } else if !pairwise_distinct(new_transmitter_keys(new_oracles)) {
        Some(ErrorCode::DuplicateTransmitter)
    } else {
        None
    }
}

/// Whether `oracle` is the new oracle `given`, taken into the set at the
/// round `from_round_id` with no payee and nothing accrued.
pub open spec fn installs(oracle: Oracle, given: NewOracle, from_round_id: u32) -> bool {
    &&& oracle.signer.key@ == given.signer@
    &&& oracle.transmitter == given.transmitter
    &&& oracle.payee@ == Pubkey::default_bytes()
    &&& oracle.proposed_payee@ == Pubkey::default_bytes()
    &&& oracle.from_round_id == from_round_id
    &&& oracle.payment_gjuels == 0
}

/// Whether `oracles` are the new oracles `sorted`, in their order.
pub open spec fn installs_all(oracles: Seq<Oracle>, sorted: Seq<NewOracle>, from_round_id: u32) -> bool {
    &&& oracles.len() == sorted.len()
    &&& forall|i: int| 0 <= i < oracles.len() ==> installs(#[trigger] oracles[i], sorted[i], from_round_id)
}

/// What each of `oracles` is owed, as leftover payments; `Overflow` where
/// one cannot be computed.
pub fn snapshot_balances(oracles: &[Oracle], state: &State) -> (r: Result<
    Vec<LeftoverPayment>,
    ErrorCode,
>)
    ensures
        match r {
            Ok(leftovers) => snapshots(
                leftovers@,
                oracles@,
                state.config.billing.observation_payment_gjuels,
                state.config.latest_aggregator_round_id,
            ) && snapshot_error(
                oracles@,
                state.config.billing.observation_payment_gjuels,
                state.config.latest_aggregator_round_id,
            ) is None,
            Err(e) => snapshot_error(
                oracles@,
                state.config.billing.observation_payment_gjuels,
                state.config.latest_aggregator_round_id,
            ) == Some(e),
        },
{
    let billing = state.config.billing;
    let latest_round_id = state.config.latest_aggregator_round_id;
    let mut leftovers: Vec<LeftoverPayment> = Vec::new();
    let mut i: usize = 0;
    while i < oracles.len()
        invariant
            0 <= i <= oracles@.len(),
            billing == state.config.billing,
            latest_round_id == state.config.latest_aggregator_round_id,
            leftovers@.len() == i,
            forall|j: int|
                0 <= j < i ==> (#[trigger] leftovers@[j]).payee == oracles@[j].payee && Some(
                    leftovers@[j].amount,
                ) == owed_payment(
                    billing.observation_payment_gjuels,
                    oracles@[j],
                    latest_round_id,
                ),
            forall|j: int|
                0 <= j < i ==> owed_payment(
                    billing.observation_payment_gjuels,
                    #[trigger] oracles@[j],
                    latest_round_id,
                ) is Some,
        decreases oracles@.len() - i,
    {
        let oracle = &oracles[i];
        let amount = match calculate_owed_payment_gjuels(&billing, oracle, latest_round_id) {
            Ok(amount) => amount,
            Err(e) => {
                return Err(e);
            },
        };
        leftovers.push(LeftoverPayment { payee: oracle.payee, amount });
        i += 1;
    }
    Ok(leftovers)
}

/// Replaces the oracle set and the offchain configuration at once. The set
/// must hold more than `3 * f` and at most 19 oracles, and no signer and no
/// transmitter twice. What the outgoing oracles are owed is kept as leftover
/// payments; while an earlier leftover is unpaid the change is refused with
/// `PaymentsRemaining`. The new oracles are sorted by signer key and start
/// without payees; epoch and round start over. Only the owner may.
pub fn set_config(
    state: &mut State,
    authority: &Pubkey,
    new_oracles: &[NewOracle],
    f: u8,
    offchain_config_version: u64,
    offchain_config: &[u8],
    program_id: &Pubkey,
    aggregator: &Pubkey,
    slot: u64,
) -> (r: Result<event::SetConfig, ErrorCode>)
    requires
        old(state).wf(),
        old(state).config.config_count < u32::MAX,
    ensures
        final(state).wf(),
        match r {
            Ok(announced) => {
                &&& set_config_error(*old(state), *authority, new_oracles@, f, offchain_config@)
                    is None
                &&& snapshots(
                    final(state).leftover_payments@,
                    old(state).oracles@,
                    old(state).config.billing.observation_payment_gjuels,
                    old(state).config.latest_aggregator_round_id,
                )
                &&& exists|sorted: Seq<NewOracle>|
                    sorted.to_multiset() == new_oracles@.to_multiset() && #[trigger] installs_all(
                        final(state).oracles@,
                        sorted,
                        old(state).config.latest_aggregator_round_id,
                    )
                &&& final(state).offchain_config.version == offchain_config_version
                &&& final(state).offchain_config.bytes@ == offchain_config@
                &&& final(state).config == (Config {
                    f,
                    epoch: 0,
                    round: 0,
                    config_count: (old(state).config.config_count + 1) as u32,
                    latest_config_block_number: slot,
                    latest_config_digest: final(state).config.latest_config_digest,
                    ..old(state).config
                })
                &&& final(state).config.latest_config_digest@ == config_digest(
                    program_id@,
                    aggregator@,
                    (old(state).config.config_count + 1) as u32,
                    final(state).oracles@,
                    f,
                    old(state).config.min_answer,
                    old(state).config.max_answer,
                    offchain_config_version,
                    offchain_config@,
                )
                &&& final(state).config.latest_config_digest@[0] == 0x00
                &&& final(state).config.latest_config_digest@[1] == 0x03
                &&& sha256_digest(
                    config_digest_preimage(
                        program_id@,
                        aggregator@,
                        (old(state).config.config_count + 1) as u32,
                        final(state).oracles@,
                        f,
                        old(state).config.min_answer,
                        old(state).config.max_answer,
                        offchain_config_version,
                        offchain_config@,
                    ),
                ).len() == 32
                &&& final(state).version == old(state).version
                &&& final(state).vault_nonce == old(state).vault_nonce
                &&& final(state).feed == old(state).feed
                &&& announced.config_digest == final(state).config.latest_config_digest
                &&& announced.f == f
                &&& announced_signers(announced.signers@, final(state).oracles@)
            },
            Err(e) => set_config_error(*old(state), *authority, new_oracles@, f, offchain_config@)
                == Some(e) && *final(state) == *old(state),
        },
{
    match owner(state, authority) {
        Ok(_) => {},
        Err(e) => {
            return Err(e);
        },
    }
    match check_oracle_count(new_oracles.len(), f) {
        Ok(_) => {},
        Err(e) => {
            return Err(e);
        },
    }
    if offchain_config.len() > MAX_OFFCHAIN_CONFIG {
        return Err(ErrorCode::InvalidInput);
    }
    // no leftover payments may remain
    if has_payments_remaining(state.leftover_payments.as_slice()) {
        return Err(ErrorCode::PaymentsRemaining);
    }
    // the current balances become leftover payments
    let leftovers = match snapshot_balances(state.oracles.as_slice(), state) {
        Ok(leftovers) => leftovers,
        Err(e) => {
            return Err(e);
        },
    };
    // sorted, so that binary search can find a signer
    let sorted = match sort_oracles(new_oracles) {
        Ok(sorted) => sorted,
        Err(e) => {
            return Err(e);
        },
    };

    state.leftover_payments.clear();
    state.leftover_payments.extend(leftovers.as_slice());

    state.offchain_config.version = offchain_config_version;
    state.offchain_config.bytes.clear();
    state.offchain_config.bytes.extend(offchain_config);

    let from_round_id = state.config.latest_aggregator_round_id;
    state.oracles.clear();
    let mut i: usize = 0;
    while i < sorted.len()
        invariant
            0 <= i <= sorted@.len() <= 19,
            state.oracles.wf(),
            state.oracles@.len() == i,
            forall|j: int| 0 <= j < i ==> installs(#[trigger] state.oracles@[j], sorted@[j], from_round_id),
            state.config == old(state).config,
            state.version == old(state).version,
            state.vault_nonce == old(state).vault_nonce,
            state.feed == old(state).feed,
            state.leftover_payments@ == leftovers@,
            state.leftover_payments.wf(),
            state.offchain_config.wf(),
            state.offchain_config.version == offchain_config_version,
            state.offchain_config.bytes@ == offchain_config@,
        decreases sorted@.len() - i,
    {
        let oracle = sorted[i];
        state.oracles.push(
            Oracle {
                signer: SigningKey { key: oracle.signer },
                transmitter: oracle.transmitter,
                payee: Pubkey::default(),
                proposed_payee: Pubkey::default(),
                from_round_id,
                payment_gjuels: 0,
            },
        );
        i += 1;
    }
    proof {
        assert(installs_all(state.oracles@, sorted@, from_round_id));
        assert(signer_keys(state.oracles@) =~= new_signer_keys(sorted@));
        assert(transmitter_keys(state.oracles@) =~= new_transmitter_keys(sorted@));
    }
    state.config.f = f;
    // epoch and round start over
    state.config.epoch = 0;
    state.config.round = 0;
    seal_config(state, program_id, aggregator, slot);

    let signers = collect_signer_keys(state.oracles.as_slice());
    Ok(
        event::SetConfig {
            config_digest: state.config.latest_config_digest,
            f: state.config.f,
            signers,
        },
    )
}

/// Why payees are refused; `None` where they are not.
pub open spec fn set_payees_error(state: State, authority: Pubkey, payees: Seq<TokenAccount>) -> Option<
    ErrorCode,
> {
    if authority@ != state.config.owner@ {
        Some(ErrorCode::Unauthorized)
    } else if state.oracles@.len() != payees.len() {
        Some(ErrorCode::PayeeOracleMismatch)
    } else if exists|i: int|
        0 <= i < payees.len() && (#[trigger] payees[i]).mint@ != state.config.token_mint@ {
        Some(ErrorCode::InvalidTokenAccount)
    } else if exists|i: int|
        0 <= i < state.oracles@.len() && (#[trigger] state.oracles@[i]).payee@
            != Pubkey::default_bytes() {
        Some(ErrorCode::PayeeAlreadySet)
    } else {
        None
    }
}

/// Gives each oracle its payee, in the order of the oracles: token accounts
/// of the feed's token. A payee that is set stays: `PayeeAlreadySet`. Only
/// the owner may.
pub fn set_payees(state: &mut State, authority: &Pubkey, payees: &[TokenAccount]) -> (r: Result<
    (),
    ErrorCode,
>)
    requires
        old(state).wf(),
    ensures
        final(state).wf(),
        final(state).config == old(state).config,
        final(state).version == old(state).version,
        final(state).vault_nonce == old(state).vault_nonce,
        final(state).feed == old(state).feed,
        final(state).offchain_config == old(state).offchain_config,
        final(state).leftover_payments == old(state).leftover_payments,
        match r {
            Ok(_) => set_payees_error(*old(state), *authority, payees@) is None && final(state).oracles@ == Seq::new(
                payees@.len(),
                |i: int| Oracle { payee: payees@[i].key, ..old(state).oracles@[i] },
            ),
            Err(e) => set_payees_error(*old(state), *authority, payees@) == Some(e) && final(state).oracles@ == old(state).oracles@,
        },
{
    match owner(state, authority) {
        Ok(_) => {},
        Err(e) => {
            return Err(e);
        },
    }
    // a payee for each oracle
    let count = state.oracles.len();
    if count != payees.len() {
        return Err(ErrorCode::PayeeOracleMismatch);
    }
    let ghost before = state.oracles@;
    let mut k: usize = 0;
    while k < count
        invariant
            0 <= k <= count == payees@.len(),
            *state == *old(state),
            state.wf(),
            authority@ == state.config.owner@,
            state.oracles@.len() == count,
            forall|j: int| 0 <= j < k ==> (#[trigger] payees@[j]).mint@ == state.config.token_mint@,
        decreases count - k,
    {
        if payees[k].mint != state.config.token_mint {
            return Err(ErrorCode::InvalidTokenAccount);
        }
        k += 1;
    }
    let mut k: usize = 0;
    while k < count
        invariant
            0 <= k <= count == payees@.len(),
            *state == *old(state),
            state.wf(),
            authority@ == state.config.owner@,
            state.oracles@.len() == count,
            forall|j: int| 0 <= j < count ==> (#[trigger] payees@[j]).mint@ == state.config.token_mint@,
            forall|j: int| 0 <= j < k ==> (#[trigger] state.oracles@[j]).payee@
                == Pubkey::default_bytes(),
        decreases count - k,
    {
        // a payee that is set cannot be set again
        if !state.oracles.get(k).payee.is_default() {
            return Err(ErrorCode::PayeeAlreadySet);
        }
        k += 1;
    }
    let mut i: usize = 0;
    while i < count
        invariant
            0 <= i <= count == payees@.len(),
            before == old(state).oracles@,
            before.len() == count,
            state.oracles@.len() == count,
            state.oracles.wf(),
            forall|j: int| 0 <= j < i ==> state.oracles@[j] == (Oracle {
                payee: payees@[j].key,
                ..before[j]
            }),
            forall|j: int| i <= j < count ==> state.oracles@[j] == before[j],
            state.config == old(state).config,
            state.version == old(state).version,
            state.vault_nonce == old(state).vault_nonce,
            state.feed == old(state).feed,
            state.offchain_config == old(state).offchain_config,
            state.leftover_payments == old(state).leftover_payments,
        decreases count - i,
    {
        let mut oracle = state.oracles.get(i);
        oracle.payee = payees[i].key;
        state.oracles.set(i, oracle);
        i += 1;
    }
    proof {
        let after = Seq::new(payees@.len(), |i: int| Oracle { payee: payees@[i].key, ..before[i] });
        assert(state.oracles@ =~= after);
        assert(signer_keys(after) =~= signer_keys(before));
        assert(transmitter_keys(after) =~= transmitter_keys(before));
    }
    Ok(())
}

/// Pays out what the oracles are owed before the feed is closed. Only the
/// owner may. See `pay_oracles_impl`.
pub fn close(state: &mut State, authority: &Pubkey, payees: &[Pubkey]) -> (r: Result<
    Vec<Payment>,
    ErrorCode,
>)
    requires
        old(state).wf(),
    ensures
        final(state).wf(),
        match r {
            Ok(payments) => {
                &&& authority@ == old(state).config.owner@
                &&& payout_refusal(*old(state), payees@) is None
                &&& payments@ == payout_payments(*old(state))
                &&& settled(*old(state), *final(state))
            },
            Err(e) => *final(state) == *old(state) && if authority@ != old(state).config.owner@ {
                e == ErrorCode::Unauthorized
            } else {
                payout_refusal(*old(state), payees@) == Some(e)
            },
        },
{
    match owner(state, authority) {
        Ok(_) => {},
        Err(e) => {
            return Err(e);
        },
    }
    pay_oracles_impl(state, payees)
}

} // verus!
