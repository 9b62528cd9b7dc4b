//! What holds of every transmission.

use vstd::prelude::*;
use vstd::arithmetic::div_mod::{lemma_div_multiples_vanish, lemma_mod_multiples_basic};
use crate::crypto::sha256_digest;
use crate::error::ErrorCode;
use crate::pubkey::Pubkey;
use crate::signers::has_signer;
use crate::state::State;
use crate::transmit::{
    context_bytes, has_transmitter, is_stale, report_bytes, report_digest, report_epoch,
    report_median, report_observer_count, report_round, signature_bytes, signature_unit,
    signed_message, signer_address, signer_place, signer_places, signers_error, transmit_error,
};

verus! {

/// The hash that the oracles signed for the transmission `data`.
pub open spec fn transmission_hash(data: Seq<u8>) -> Seq<u8> {
    sha256_digest(signed_message(report_bytes(data), context_bytes(data)))
}

/// The address that signed the `i`-th signature unit of `data`.
pub open spec fn transmission_signer(data: Seq<u8>, i: int) -> Result<Seq<u8>, ErrorCode> {
    signer_address(transmission_hash(data), signature_unit(signature_bytes(data), i))
}

/// Where no unit is refused, every unit was signed by an oracle of the set.
pub proof fn lemma_signers_all_found(state: State, data: Seq<u8>, count: int, i: int)
    requires
        0 <= i < count,
        signers_error(state.oracles@, transmission_hash(data), signature_bytes(data), count)
            is None,
    ensures
        signer_place(
            state.oracles@,
            transmission_hash(data),
            signature_unit(signature_bytes(data), i),
        ) is Ok,
    decreases count,
{
    if i < count - 1 {
        lemma_signers_all_found(state, data, count - 1, i);
    }
}

/// Where every unit was signed by an oracle of the set, no unit is refused.
pub proof fn lemma_signers_none_refused(state: State, data: Seq<u8>, count: int)
    requires
        forall|i: int|
            0 <= i < count ==> (#[trigger] signer_place(
                state.oracles@,
                transmission_hash(data),
                signature_unit(signature_bytes(data), i),
            )) is Ok,
    ensures
        signers_error(state.oracles@, transmission_hash(data), signature_bytes(data), count)
            is None,
    decreases count,
{
    if count > 0 {
        lemma_signers_none_refused(state, data, count - 1);
        assert(signer_place(
            state.oracles@,
            transmission_hash(data),
            signature_unit(signature_bytes(data), count - 1),
        ) is Ok);
    }
}

/// A transmission is accepted if it is long enough, comes after the stored
/// epoch and round, is sent by an oracle's transmitter, is bound to the
/// current digest, carries exactly `f + 1` signature units that were signed
/// by oracles of the set with addresses that all differ, reports more than
/// `f` observers and a median within the bounds, and the round counter can
/// still grow. (`transmit` then advances the counter by one.)
pub proof fn lemma_quorum_accepted(state: State, transmitter: Pubkey, data: Seq<u8>)
    requires
        state.wf(),
        data.len() > 158,
        !is_stale(state.config, report_epoch(data), report_round(data)),
        has_transmitter(state.oracles@, transmitter@),
        state.config.latest_config_digest@ == report_digest(data),
        signature_bytes(data).len() == 65 * (state.config.f + 1),
        forall|i: int|
            0 <= i <= state.config.f ==> (#[trigger] transmission_signer(data, i)) is Ok
                && has_signer(state.oracles@, transmission_signer(data, i)->Ok_0),
        forall|i: int, j: int|
            0 <= i < j <= state.config.f ==> #[trigger] transmission_signer(data, i)
                != #[trigger] transmission_signer(data, j),
        state.config.f < report_observer_count(data),
        state.config.min_answer <= report_median(data) <= state.config.max_answer,
        state.config.latest_aggregator_round_id < u32::MAX,
    ensures
        transmit_error(state, transmitter, data) is None,
{
    let count = state.config.f + 1;
    let oracles = state.oracles@;
    let hash = transmission_hash(data);
    let signatures = signature_bytes(data);
    lemma_div_multiples_vanish(count, 65);
    lemma_mod_multiples_basic(count, 65);
    assert(65 * count == count * 65) by (nonlinear_arith);
    assert(signatures.len() as int / 65 == count);
    assert forall|i: int| 0 <= i < count implies (#[trigger] signer_place(
        oracles,
        hash,
        signature_unit(signatures, i),
    )) is Ok by {
        assert(transmission_signer(data, i) is Ok);
    }
    lemma_signers_none_refused(state, data, count);
    let places = signer_places(oracles, hash, signatures, count);
    assert forall|i: int, j: int| 0 <= i < places.len() && 0 <= j < places.len() && i != j implies places[i]
        != places[j] by {
        let a = transmission_signer(data, i);
        let b = transmission_signer(data, j);
        assert(a is Ok && has_signer(oracles, a->Ok_0));
        assert(b is Ok && has_signer(oracles, b->Ok_0));
        if i < j {
            assert(a != b);
        } else {
            assert(b != a);
        }
        assert(oracles[places[i]].signer.key@ == a->Ok_0);
        assert(oracles[places[j]].signer.key@ == b->Ok_0);
    }
}

/// A transmission in which two signature units were signed with the same
/// address is refused, however many units it carries.
pub proof fn lemma_duplicate_signer_rejected(
    state: State,
    transmitter: Pubkey,
    data: Seq<u8>,
    i: int,
    j: int,
)
    requires
        state.wf(),
        0 <= i < j < signature_bytes(data).len() as int / 65,
        transmission_signer(data, i) is Ok,
        transmission_signer(data, i) == transmission_signer(data, j),
    ensures
        transmit_error(state, transmitter, data) is Some,
{
    let oracles = state.oracles@;
    let hash = transmission_hash(data);
    let signatures = signature_bytes(data);
    let count = signatures.len() as int / 65;
    if signers_error(oracles, hash, signatures, count) is None {
        lemma_signers_all_found(state, data, count, i);
        lemma_signers_all_found(state, data, count, j);
        let places = signer_places(oracles, hash, signatures, count);
        assert(places[i] == places[j]);
        assert(!places.no_duplicates());
    }
}

/// A transmission that is otherwise in order but carries one signature unit
/// less than the quorum is refused for its number of signatures.
pub proof fn lemma_missing_signature_rejected(state: State, transmitter: Pubkey, data: Seq<u8>)
    requires
        data.len() > 158,
        !is_stale(state.config, report_epoch(data), report_round(data)),
        has_transmitter(state.oracles@, transmitter@),
        state.config.latest_config_digest@ == report_digest(data),
        signature_bytes(data).len() == 65 * state.config.f,
    ensures
        transmit_error(state, transmitter, data) == Some(ErrorCode::WrongNumberOfSignatures),
{
    let count = state.config.f as int;
    lemma_div_multiples_vanish(count, 65);
    lemma_mod_multiples_basic(count, 65);
    assert(65 * count == count * 65) by (nonlinear_arith);
}

/// A transmission whose epoch and round are the stored ones is refused as stale.
pub proof fn lemma_replay_rejected(state: State, transmitter: Pubkey, data: Seq<u8>)
    requires
        data.len() > 158,
        report_epoch(data) == state.config.epoch,
        report_round(data) == state.config.round,
    ensures
        transmit_error(state, transmitter, data) == Some(ErrorCode::StaleReport),
{
}

} // verus!
