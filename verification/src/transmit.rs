//! Accepting a report: decode, check that it is fresh, bound to the current
//! configuration and signed by a quorum of different oracles, then commit it.

use vstd::prelude::*;
use vstd::slice::slice_subrange;
use crate::billing::{calculate_reimbursement_gjuels, reimbursement_gjuels};
use crate::bytes::{array20, be_value, bytes_eq, i128_of, push_all};
use crate::crypto::{
    keccak256, keccak256_digest, secp256k1_recover, secp256k1_recovered, sha256, sha256_digest,
    RecoverError,
};
use crate::error::ErrorCode;
use crate::event;
use crate::pubkey::Pubkey;
use crate::report::{Report, ReportContext, CONTEXT_LEN, RAW_REPORT_LEN, SIGNATURE_LEN};
use crate::signers::{
    bit, find_signer, has_signer, lemma_mask_counts_distinct, mask_of, popcount, signer_position,
};
use crate::state::{pairwise_distinct, transmitter_keys, Config, Oracle, State};
use crate::store::{Feed, NewTransmission};

verus! {

/// What an accepted report leaves for the caller to pass on.
#[derive(Clone, Copy, Debug)]
pub struct Transmitted {
    /// The bump of the address that signs for the store.
    pub store_nonce: u8,
    /// The round for the feed.
    pub round: NewTransmission,
    /// The announcement of the round.
    pub event: event::NewTransmission,
}

/// The report context within a transmission.
pub open spec fn context_bytes(data: Seq<u8>) -> Seq<u8> {
    data.subrange(1, 97)
}

/// The report within a transmission.
pub open spec fn report_bytes(data: Seq<u8>) -> Seq<u8> {
    data.subrange(97, 158)
}

/// The signature units of a transmission, one behind the other.
pub open spec fn signature_bytes(data: Seq<u8>) -> Seq<u8> {
    data.subrange(158, data.len() as int)
}

/// The `i`-th signature unit among `signatures`.
pub open spec fn signature_unit(signatures: Seq<u8>, i: int) -> Seq<u8> {
    signatures.subrange(65 * i, 65 * i + 65)
}

/// The digest that the report was made for.
pub open spec fn report_digest(data: Seq<u8>) -> Seq<u8> {
    context_bytes(data).subrange(0, 32)
}

/// The epoch of the report.
pub open spec fn report_epoch(data: Seq<u8>) -> nat {
    be_value(context_bytes(data).subrange(59, 63))
}

/// The round of the report within its epoch.
pub open spec fn report_round(data: Seq<u8>) -> u8 {
    context_bytes(data)[63]
}

/// The time of the observations.
pub open spec fn report_timestamp(data: Seq<u8>) -> nat {
    be_value(report_bytes(data).subrange(0, 4))
}

/// How many oracles observed.
pub open spec fn report_observer_count(data: Seq<u8>) -> u8 {
    report_bytes(data)[4]
}

/// The indices of the oracles that observed.
pub open spec fn report_observers(data: Seq<u8>) -> Seq<u8> {
    report_bytes(data).subrange(5, 24)
}

/// The median of the observations.
pub open spec fn report_median(data: Seq<u8>) -> int {
    i128_of(be_value(report_bytes(data).subrange(37, 53)))
}

/// The reported exchange rate.
pub open spec fn report_juels_per_lamport(data: Seq<u8>) -> nat {
    be_value(report_bytes(data).subrange(53, 61))
}

/// What the oracles signed: the length of the report in one byte, the
/// report, the context.
pub open spec fn signed_message(report: Seq<u8>, context: Seq<u8>) -> Seq<u8> {
    seq![(report.len() % 256) as u8] + report + context
}

/// The address of a secp256k1 public key: the last 20 bytes of its Keccak-256 digest.
pub open spec fn key_address(key: Seq<u8>) -> Seq<u8> {
    keccak256_digest(key).subrange(12, 32)
}

/// The address that signed `hash` in the signature unit `unit`, or the error
/// that the unit is refused with. A hash of other than 32 bytes is refused
/// as invalid input.
pub open spec fn signer_address(hash: Seq<u8>, unit: Seq<u8>) -> Result<Seq<u8>, ErrorCode> {
    if hash.len() != 32 {
        Err(ErrorCode::InvalidInput)
    } else {
        match secp256k1_recovered(hash, unit[64], unit.subrange(0, 64)) {
            Ok(key) => Ok(key_address(key)),
            Err(RecoverError::InvalidHash) => Err(ErrorCode::InvalidInput),
            Err(RecoverError::InvalidRecoveryId) => Err(ErrorCode::InvalidInput),
            Err(RecoverError::InvalidSignature) => Err(ErrorCode::Unauthorized),
        }
    }
}

/// The place in the set of the oracle that signed `hash` in `unit`.
pub open spec fn signer_place(oracles: Seq<Oracle>, hash: Seq<u8>, unit: Seq<u8>) -> Result<
    int,
    ErrorCode,
> {
    match signer_address(hash, unit) {
        Ok(address) => if has_signer(oracles, address) {
            Ok(signer_position(oracles, address))
        } else {
            Err(ErrorCode::UnauthorizedSigner)
        },
        Err(e) => Err(e),
    }
}

/// The error of the first among the first `count` signature units that is
/// refused, if one is.
pub open spec fn signers_error(
    oracles: Seq<Oracle>,
    hash: Seq<u8>,
    signatures: Seq<u8>,
    count: int,
) -> Option<ErrorCode>
    decreases count,
{
    if count <= 0 {
        None
    } else {
        match signers_error(oracles, hash, signatures, count - 1) {
            Some(e) => Some(e),
            None => match signer_place(oracles, hash, signature_unit(signatures, count - 1)) {
                Ok(_) => None,
                Err(e) => Some(e),
            },
        }
    }
}

/// The places of the oracles that signed the first `count` units.
pub open spec fn signer_places(
    oracles: Seq<Oracle>,
    hash: Seq<u8>,
    signatures: Seq<u8>,
    count: int,
) -> Seq<int> {
    Seq::new(
        count as nat,
        |i: int|
            match signer_place(oracles, hash, signature_unit(signatures, i)) {
                Ok(place) => place,
                Err(_) => 0,
            },
    )
}

/// Whether an oracle of the set transmits with the key `transmitter`.
pub open spec fn has_transmitter(oracles: Seq<Oracle>, transmitter: Seq<u8>) -> bool {
    exists|i: int| 0 <= i < oracles.len() && (#[trigger] oracles[i]).transmitter@ == transmitter
}

/// The place in the set of the oracle that transmits with `transmitter`.
pub open spec fn transmitter_position(oracles: Seq<Oracle>, transmitter: Seq<u8>) -> int {
    choose|i: int| 0 <= i < oracles.len() && (#[trigger] oracles[i]).transmitter@ == transmitter
}

/// At most one oracle transmits with a given key.
pub proof fn lemma_transmitter_position_unique(oracles: Seq<Oracle>, transmitter: Seq<u8>, i: int)
    requires
        pairwise_distinct(transmitter_keys(oracles)),
        0 <= i < oracles.len(),
        oracles[i].transmitter@ == transmitter,
    ensures
        has_transmitter(oracles, transmitter),
        transmitter_position(oracles, transmitter) == i,
{
    let j = transmitter_position(oracles, transmitter);
    let keys = transmitter_keys(oracles);
    if j < i {
        assert(keys[j] != keys[i]);
    } else if i < j {
        assert(keys[i] != keys[j]);
    }
}

/// Whether a report of `epoch` and `round` does not come after what is stored.
pub open spec fn is_stale(config: Config, epoch: nat, round: u8) -> bool {
    !(config.epoch < epoch || (config.epoch == epoch && config.round < round))
}

/// Why a transmission is refused, the checks taken in their order; `None`
/// where it is accepted. The quorum is `f + 1` signatures.
pub open spec fn transmit_error(state: State, transmitter: Pubkey, data: Seq<u8>) -> Option<
    ErrorCode,
> {
    let oracles = state.oracles@;
    let config = state.config;
    let signatures = signature_bytes(data);
    let count = signatures.len() as int / 65;
    let hash = sha256_digest(signed_message(report_bytes(data), context_bytes(data)));
    if data.len() <= 158 {
        Some(ErrorCode::InvalidInput)
    } else if is_stale(config, report_epoch(data), report_round(data)) {
        Some(ErrorCode::StaleReport)
    } else if !has_transmitter(oracles, transmitter@) {
        Some(ErrorCode::Unauthorized)
    } else if config.latest_config_digest@ != report_digest(data) {
        Some(ErrorCode::DigestMismatch)
    } else if signatures.len() % 65 != 0 {
        Some(ErrorCode::InvalidInput)
    } else if count != config.f + 1 {
        Some(ErrorCode::WrongNumberOfSignatures)
    } else if signers_error(oracles, hash, signatures, count) is Some {
        signers_error(oracles, hash, signatures, count)
    } else if !signer_places(oracles, hash, signatures, count).no_duplicates() {
        Some(ErrorCode::DuplicateSigner)
    } else if config.f >= report_observer_count(data) {
        Some(ErrorCode::InvalidInput)
    } else if report_median(data) < config.min_answer || report_median(data) > config.max_answer {
        Some(ErrorCode::MedianOutOfRange)
    } else if config.latest_aggregator_round_id == u32::MAX {
        Some(ErrorCode::Overflow)
    } else {
        None
    }
}

/// What the transmitting oracle accrues for a report: the reimbursement and
/// the flat fee of a transmission, capped at the largest amount.
pub open spec fn transmission_payment(config: Config, data: Seq<u8>) -> u64 {
    let amount = reimbursement_gjuels(report_juels_per_lamport(data) as u64)
        + config.billing.transmission_payment_gjuels;
    if amount > u64::MAX {
        u64::MAX
    } else {
        amount as u64
    }
}

/// The oracle after it accrued `amount`, capped at the largest amount.
pub open spec fn credited(oracle: Oracle, amount: u64) -> Oracle {
    Oracle {
        payment_gjuels: if oracle.payment_gjuels + amount > u64::MAX {
            u64::MAX
        } else {
            (oracle.payment_gjuels + amount) as u64
        },
        ..oracle
    }
}

/// How an accepted transmission changes the state, and what it hands out.
pub open spec fn committed(
    before: State,
    after: State,
    transmitter: Pubkey,
    data: Seq<u8>,
    out: Transmitted,
) -> bool {
    let place = transmitter_position(before.oracles@, transmitter@);
    &&& after.config == Config {
        epoch: report_epoch(data) as u32,
        round: report_round(data),
        latest_aggregator_round_id: (before.config.latest_aggregator_round_id + 1) as u32,
        latest_transmitter: transmitter,
        ..before.config
    }
    &&& after.oracles@ == before.oracles@.update(
        place,
        credited(before.oracles@[place], transmission_payment(before.config, data)),
    )
    &&& after.version == before.version
    &&& after.vault_nonce == before.vault_nonce
    &&& after.feed == before.feed
    &&& after.offchain_config == before.offchain_config
    &&& after.leftover_payments == before.leftover_payments
    &&& out.store_nonce == data[0]
    &&& out.round.answer == report_median(data)
    &&& out.round.timestamp == report_timestamp(data)
    &&& out.event.round_id == before.config.latest_aggregator_round_id + 1
    &&& out.event.config_digest == before.config.latest_config_digest
    &&& out.event.answer == report_median(data)
    &&& out.event.transmitter == place
    &&& out.event.observations_timestamp == report_timestamp(data)
    &&& out.event.observer_count == report_observer_count(data)
    &&& out.event.observers@ == report_observers(data)
    &&& out.event.juels_per_lamport == report_juels_per_lamport(data)
    &&& out.event.reimbursement_gjuels == reimbursement_gjuels(
        report_juels_per_lamport(data) as u64,
    )
}

/// The hash that the oracles signed for a report and its context.
pub fn message_hash(raw_report: &[u8], report_context: &[u8]) -> (hash: [u8; 32])
    ensures
        hash@ == sha256_digest(signed_message(raw_report@, report_context@)),
{
    let mut message: Vec<u8> = Vec::new();
    message.push((raw_report.len() % 256) as u8);
    push_all(&mut message, raw_report);
    push_all(&mut message, report_context);
    proof {
        assert(message@ =~= signed_message(raw_report@, report_context@));
    }
    sha256(message.as_slice())
}

/// The address of the 64-byte public key `key`.
pub fn address_of_key(key: &[u8; 64]) -> (address: [u8; 20])
    ensures
        address@ == key_address(key@),
{
    let digest = keccak256(key.as_slice());
    array20(digest.as_slice(), 12)
}

/// An address as a sequence of bytes.
pub open spec fn address_view(r: Result<[u8; 20], ErrorCode>) -> Result<Seq<u8>, ErrorCode> {
    match r {
        Ok(address) => Ok(address@),
        Err(e) => Err(e),
    }
}

/// The error that a failed recovery is refused with.
pub fn recover_error_code(e: RecoverError) -> (code: ErrorCode)
    ensures
        code == match e {
            RecoverError::InvalidHash => ErrorCode::InvalidInput,
            RecoverError::InvalidRecoveryId => ErrorCode::InvalidInput,
            RecoverError::InvalidSignature => ErrorCode::Unauthorized,
        },
{
    match e {
        RecoverError::InvalidHash => ErrorCode::InvalidInput,
        RecoverError::InvalidRecoveryId => ErrorCode::InvalidInput,
        RecoverError::InvalidSignature => ErrorCode::Unauthorized,
    }
}

/// The address that signed `hash` in the 65-byte signature unit `unit`.
pub fn recover_address(hash: &[u8], unit: &[u8]) -> (r: Result<[u8; 20], ErrorCode>)
    requires
        unit@.len() == 65,
    ensures
        address_view(r) == signer_address(hash@, unit@),
{
    if hash.len() != 32 {
        return Err(ErrorCode::InvalidInput);
    }
    let recovery_id = unit[64];
    let signature = slice_subrange(unit, 0, 64);
    match secp256k1_recover(hash, recovery_id, signature) {
        Ok(key) => Ok(address_of_key(&key)),
        Err(e) => Err(recover_error_code(e)),
    }
}

/// Where `transmitter` stands in the oracle set.
pub fn find_transmitter(oracles: &[Oracle], transmitter: &Pubkey) -> (r: Option<usize>)
    requires
        pairwise_distinct(transmitter_keys(oracles@)),
    ensures
        match r {
            Some(i) => has_transmitter(oracles@, transmitter@) && i == transmitter_position(
                oracles@,
                transmitter@,
            ),
            None => !has_transmitter(oracles@, transmitter@),
        },
{
    let mut i: usize = 0;
    while i < oracles.len()
        invariant
            0 <= i <= oracles@.len(),
            pairwise_distinct(transmitter_keys(oracles@)),
            forall|j: int| 0 <= j < i ==> (#[trigger] oracles@[j]).transmitter@ != transmitter@,
        decreases oracles@.len() - i,
    {
        if oracles[i].transmitter == *transmitter {
            proof {
                lemma_transmitter_position_unique(oracles@, transmitter@, i as int);
            }
            return Some(i);
        }
        i += 1;
    }
    None
}

/// Recovers the signer of each of the `count` signature units and looks it
/// up in the oracle set. Gives the mask of the places found, or the error of
/// the first unit that is refused.
pub fn collect_signers(oracles: &[Oracle], hash: &[u8], signatures: &[u8], count: usize) -> (r:
    Result<u32, ErrorCode>)
    requires
        crate::state::valid_oracle_set(oracles@),
        signatures@.len() == 65 * count,
    ensures
        match r {
            Ok(mask) => signers_error(oracles@, hash@, signatures@, count as int) is None && mask
                == mask_of(signer_places(oracles@, hash@, signatures@, count as int)),
            Err(e) => signers_error(oracles@, hash@, signatures@, count as int) == Some(e),
        },
        forall|i: int|
            0 <= i < count ==> 0 <= #[trigger] signer_places(
                oracles@,
                hash@,
                signatures@,
                count as int,
            )[i] < 32,
{
    let ghost all = signer_places(oracles@, hash@, signatures@, count as int);
    proof {
        assert forall|i: int| 0 <= i < count implies 0 <= #[trigger] all[i] < 32 by {
            let unit = signature_unit(signatures@, i);
            match signer_address(hash@, unit) {
                Ok(address) => {
                    if has_signer(oracles@, address) {
                        let p = signer_position(oracles@, address);
                        assert(0 <= p < oracles@.len());
                    }
                },
                Err(_) => {},
            }
        }
    }
    let total: usize = signatures.len();
    let mut uniques: u32 = 0;
    let mut i: usize = 0;
    while i < count
        invariant
            0 <= i <= count,
            crate::state::valid_oracle_set(oracles@),
            signatures@.len() == 65 * count == total,
            all == signer_places(oracles@, hash@, signatures@, count as int),
            signers_error(oracles@, hash@, signatures@, i as int) is None,
            uniques == mask_of(all.take(i as int)),
        decreases count - i,
    {
        let unit = slice_subrange(signatures, 65 * i, 65 * i + 65);
        assert(unit@ == signature_unit(signatures@, i as int));
        let address = match recover_address(hash, unit) {
            Ok(address) => address,
            Err(e) => {
                proof {
                    lemma_signers_error_stays(oracles@, hash@, signatures@, i + 1, count as int);
                }
                return Err(e);
            },
        };
        let index = match find_signer(oracles, address.as_slice()) {
            Ok(index) => index,
            Err(e) => {
                proof {
                    lemma_signers_error_stays(oracles@, hash@, signatures@, i + 1, count as int);
                }
                return Err(e);
            },
        };
        proof {
            assert(all[i as int] == index);
            assert(all.take(i + 1).drop_last() =~= all.take(i as int));
            assert(all.take(i + 1).last() == index);
            assert(bit(index as int) == 1u32 << (index as u32));
        }
        uniques = uniques | (1u32 << (index as u32));
        i += 1;
    }
    proof {
        assert(all.take(count as int) =~= all);
    }
    Ok(uniques)
}

/// Once a unit is refused, the error stays whatever units follow.
pub proof fn lemma_signers_error_stays(
    oracles: Seq<Oracle>,
    hash: Seq<u8>,
    signatures: Seq<u8>,
    k: int,
    count: int,
)
    requires
        0 <= k <= count,
        signers_error(oracles, hash, signatures, k) is Some,
    ensures
        signers_error(oracles, hash, signatures, count) == signers_error(
            oracles,
            hash,
            signatures,
            k,
        ),
    decreases count - k,
{
    if k < count {
        lemma_signers_error_stays(oracles, hash, signatures, k, count - 1);
    }
}

/// Crediting an oracle changes neither its keys nor anybody else's.
pub proof fn lemma_credit_keeps_oracle_set(oracles: Seq<Oracle>, place: int, amount: u64)
    requires
        crate::state::valid_oracle_set(oracles),
        0 <= place < oracles.len(),
    ensures
        crate::state::valid_oracle_set(oracles.update(place, credited(oracles[place], amount))),
{
    let after = oracles.update(place, credited(oracles[place], amount));
    assert(crate::state::signer_keys(after) =~= crate::state::signer_keys(oracles));
    assert(transmitter_keys(after) =~= transmitter_keys(oracles));
}

/// Takes one transmission: the nonce byte, the report context, the report
/// and the signature units. Every check is made before anything is changed,
/// so a refused transmission leaves the state as it was. An accepted one
/// advances the round, credits the transmitting oracle and hands out the
/// round for the feed and the announcement.
pub fn transmit(state: &mut State, transmitter: &Pubkey, data: &[u8]) -> (r: Result<
    Transmitted,
    ErrorCode,
>)
    requires
        old(state).wf(),
    ensures
        final(state).wf(),
        match r {
            Ok(out) => transmit_error(*old(state), *transmitter, data@) is None && committed(
                *old(state),
                *final(state),
                *transmitter,
                data@,
                out,
            ),
            Err(e) => transmit_error(*old(state), *transmitter, data@) == Some(e) && *final(state)
                == *old(state),
        },
{
    if data.len() <= 1 + RAW_REPORT_LEN {
        return Err(ErrorCode::InvalidInput);
    }
    let store_nonce = data[0];
    let report_context = slice_subrange(data, 1, 1 + CONTEXT_LEN);
    let raw_report = slice_subrange(data, 1 + CONTEXT_LEN, 1 + RAW_REPORT_LEN);
    let raw_signatures = slice_subrange(data, 1 + RAW_REPORT_LEN, data.len());

    let context = match ReportContext::unpack(report_context) {
        Ok(context) => context,
        Err(e) => {
            return Err(e);
        },
    };

    // Either newer epoch, or same epoch but higher round
    if !(state.config.epoch < context.epoch || (state.config.epoch == context.epoch
        && state.config.round < context.round)) {
        return Err(ErrorCode::StaleReport);
    }
    let oracle_idx = match find_transmitter(state.oracles.as_slice(), transmitter) {
        Some(i) => i,
        None => {
            return Err(ErrorCode::Unauthorized);
        },
    };

    if !bytes_eq(state.config.latest_config_digest.as_slice(), context.config_digest.as_slice()) {
        return Err(ErrorCode::DigestMismatch);
    }
    if raw_signatures.len() % SIGNATURE_LEN != 0 {
        return Err(ErrorCode::InvalidInput);
    }
    let signature_count = raw_signatures.len() / SIGNATURE_LEN;
    if signature_count != state.config.f as usize + 1 {
        return Err(ErrorCode::WrongNumberOfSignatures);
    }
    let hash = message_hash(raw_report, report_context);
    let ghost places = signer_places(
        state.oracles@,
        hash@,
        raw_signatures@,
        signature_count as int,
    );
    let uniques = match collect_signers(
        state.oracles.as_slice(),
        hash.as_slice(),
        raw_signatures,
        signature_count,
    ) {
        Ok(uniques) => uniques,
        Err(e) => {
            return Err(e);
        },
    };
    proof {
        lemma_mask_counts_distinct(places);
    }
    if popcount(uniques) as usize != signature_count {
        return Err(ErrorCode::DuplicateSigner);
    }
    let report = match Report::unpack(raw_report) {
        Ok(report) => report,
        Err(e) => {
            return Err(e);
        },
    };
    if state.config.f >= report.observer_count {
        return Err(ErrorCode::InvalidInput);
    }
    if report.median < state.config.min_answer || report.median > state.config.max_answer {
        return Err(ErrorCode::MedianOutOfRange);
    }
    let round_id = match state.config.latest_aggregator_round_id.checked_add(1) {
        Some(round_id) => round_id,
        None => {
            return Err(ErrorCode::Overflow);
        },
    };
    let reimbursement = match calculate_reimbursement_gjuels(
        report.juels_per_lamport,
        signature_count,
    ) {
        Ok(reimbursement) => reimbursement,
        Err(e) => {
            return Err(e);
        },
    };

    // every check has passed: commit
    state.config.epoch = context.epoch;
    state.config.round = context.round;
    state.config.latest_aggregator_round_id = round_id;
    state.config.latest_transmitter = *transmitter;

    let amount = reimbursement.saturating_add(state.config.billing.transmission_payment_gjuels as u64);
    let mut oracle = state.oracles.get(oracle_idx);
    oracle.payment_gjuels = oracle.payment_gjuels.saturating_add(amount);
    proof {
        lemma_credit_keeps_oracle_set(old(state).oracles@, oracle_idx as int, amount);
    }
    state.oracles.set(oracle_idx, oracle);

    Ok(
        Transmitted {
            store_nonce,
            round: NewTransmission {
                answer: report.median,
                timestamp: report.observations_timestamp as u64,
            },
            event: event::NewTransmission {
                round_id,
                config_digest: state.config.latest_config_digest,
                answer: report.median,
                // fits, since there are at most 19 oracles
                transmitter: oracle_idx as u8,
                observations_timestamp: report.observations_timestamp,
                observer_count: report.observer_count,
                observers: report.observers,
                juels_per_lamport: report.juels_per_lamport,
                reimbursement_gjuels: reimbursement,
            },
        },
    )
}

/// What the validator is told of an accepted answer. Whatever the validator
/// makes of it, the transmission stands.
#[derive(Clone, Copy, Debug, PartialEq, Eq, Structural)]
pub struct Validation {
    pub flagging_threshold: u32,
    pub previous_round_id: u32,
    pub previous_answer: i128,
    pub round_id: u32,
    pub answer: i128,
}

/// The answer of the round before `round_id` as the feed holds it; 0 where
/// it holds none.
pub open spec fn answer_before(feed: Feed, round_id: u32) -> i128 {
    match feed@.fetch((round_id - 1) as nat) {
        Some(previous) => previous.answer,
        None => 0,
    }
}

/// What to tell the validator of the accepted transmission `out`, given the
/// feed that holds the rounds; `None` where the feed has no validator.
pub fn validation_request(state: &State, feed: &Feed, out: &Transmitted) -> (r: Option<Validation>)
    requires
        feed.wf(),
        out.event.round_id > 0,
    ensures
        r == if state.config.validator@ == Pubkey::default_bytes() {
            None
        } else {
            Some(
                Validation {
                    flagging_threshold: state.config.flagging_threshold,
                    previous_round_id: (out.event.round_id - 1) as u32,
                    previous_answer: answer_before(*feed, out.event.round_id),
                    round_id: out.event.round_id,
                    answer: out.event.answer,
                },
            )
        },
{
    if state.config.validator.is_default() {
        return None;
    }
    let round_id = out.event.round_id;
    let previous_round_id = round_id - 1;
    let previous_answer = match feed.fetch(previous_round_id) {
        Some(transmission) => transmission.answer,
        None => 0,
    };
    Some(
        Validation {
            flagging_threshold: state.config.flagging_threshold,
            previous_round_id,
            previous_answer,
            round_id,
            answer: out.event.answer,
        },
    )
}

} // verus!
