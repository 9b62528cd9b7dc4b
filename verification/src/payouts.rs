//! Paying the oracles: all of them at once, one on its own request, and
//! those that left the set with a balance.

use vstd::prelude::*;
use crate::billing::{
    calculate_owed_payment_gjuels, calculate_total_link_due, lemma_paid_owes_nothing,
    owed_payment, paid, total_due,
};
use crate::access::AccessController;
use crate::authority::{billing_access_error, has_billing_access};
use crate::error::ErrorCode;
use crate::pubkey::Pubkey;
use crate::state::{
    signer_keys, transmitter_keys, valid_oracle_set, LeftoverPayment, Oracle, State,
};
use crate::transmit::{find_transmitter, has_transmitter, transmitter_position};

verus! {

/// An amount to move from the vault to a payee.
#[derive(Clone, Copy, Debug)]
pub struct Payment {
    pub payee: Pubkey,
    pub amount: u64,
}

/// Why a payout of all oracles is refused: a payee that is not the oracle's,
/// or an amount that cannot be computed, whichever comes first in the order
/// of the oracles. `None` where nothing is wrong among the first `count`.
pub open spec fn payout_error(
    oracles: Seq<Oracle>,
    payees: Seq<Pubkey>,
    rate: u32,
    latest_round_id: u32,
    count: int,
) -> Option<ErrorCode>
    decreases count,
{
    if count <= 0 {
        None
    } else {
        match payout_error(oracles, payees, rate, latest_round_id, count - 1) {
            Some(e) => Some(e),
            None => if oracles[count - 1].payee@ != payees[count - 1]@ {
                Some(ErrorCode::InvalidInput)
            } else if owed_payment(rate, oracles[count - 1], latest_round_id) is None {
                Some(ErrorCode::Overflow)
            } else {
                None
            },
        }
    }
}

/// The payments that are due to the oracles, in their order: one for each
/// oracle that is owed more than nothing.
pub open spec fn due_payments(oracles: Seq<Oracle>, rate: u32, latest_round_id: u32) -> Seq<
    Payment,
>
    decreases oracles.len(),
{
    if oracles.len() == 0 {
        Seq::empty()
    } else {
        let rest = due_payments(oracles.drop_last(), rate, latest_round_id);
        match owed_payment(rate, oracles.last(), latest_round_id) {
            Some(amount) => if amount != 0 {
                rest.push(Payment { payee: oracles.last().payee, amount })
            } else {
                rest
            },
            None => rest,
        }
    }
}

/// The oracles after each was paid all it is owed.
pub open spec fn all_paid(oracles: Seq<Oracle>, latest_round_id: u32) -> Seq<Oracle> {
    Seq::new(oracles.len(), |i: int| paid(oracles[i], latest_round_id))
}

/// Once an error is found, more oracles do not change it.
pub proof fn lemma_payout_error_stays(
    oracles: Seq<Oracle>,
    payees: Seq<Pubkey>,
    rate: u32,
    latest_round_id: u32,
    k: int,
    count: int,
)
    requires
        0 <= k <= count,
        payout_error(oracles, payees, rate, latest_round_id, k) is Some,
    ensures
        payout_error(oracles, payees, rate, latest_round_id, count) == payout_error(
            oracles,
            payees,
            rate,
            latest_round_id,
            k,
        ),
    decreases count - k,
{
    if k < count {
        lemma_payout_error_stays(oracles, payees, rate, latest_round_id, k, count - 1);
    }
}

/// Paying the oracles changes none of their keys.
pub proof fn lemma_all_paid_keeps_oracle_set(oracles: Seq<Oracle>, latest_round_id: u32)
    requires
        valid_oracle_set(oracles),
    ensures
        valid_oracle_set(all_paid(oracles, latest_round_id)),
{
    let after = all_paid(oracles, latest_round_id);
    assert(signer_keys(after) =~= signer_keys(oracles));
    assert(transmitter_keys(after) =~= transmitter_keys(oracles));
}

/// Oracles that were just paid are owed nothing: a second payout with no
/// round in between moves no funds.
pub proof fn lemma_second_payout_moves_nothing(
    oracles: Seq<Oracle>,
    rate: u32,
    latest_round_id: u32,
)
    ensures
        due_payments(all_paid(oracles, latest_round_id), rate, latest_round_id) == Seq::<
            Payment,
        >::empty(),
        all_paid(all_paid(oracles, latest_round_id), latest_round_id) == all_paid(
            oracles,
            latest_round_id,
        ),
    decreases oracles.len(),
{
    let once = all_paid(oracles, latest_round_id);
    assert(all_paid(once, latest_round_id) =~= once);
    if oracles.len() > 0 {
        lemma_second_payout_moves_nothing(oracles.drop_last(), rate, latest_round_id);
        assert(once.drop_last() =~= all_paid(oracles.drop_last(), latest_round_id));
        lemma_paid_owes_nothing(rate, oracles.last(), latest_round_id);
    }
}

/// Why a payout of all oracles to `payees` is refused; `None` where it is not.
pub open spec fn payout_refusal(state: State, payees: Seq<Pubkey>) -> Option<ErrorCode> {
    if payees.len() != state.oracles@.len() {
        Some(ErrorCode::InvalidInput)
    } else {
        payout_error(
            state.oracles@,
            payees,
            state.config.billing.observation_payment_gjuels,
            state.config.latest_aggregator_round_id,
            payees.len() as int,
        )
    }
}

/// The payments that a payout of all oracles makes.
pub open spec fn payout_payments(state: State) -> Seq<Payment> {
    due_payments(
        state.oracles@,
        state.config.billing.observation_payment_gjuels,
        state.config.latest_aggregator_round_id,
    )
}

/// The state after a payout of all oracles: only the oracles' balances change.
pub open spec fn settled(before: State, after: State) -> bool {
    &&& after.oracles@ == all_paid(before.oracles@, before.config.latest_aggregator_round_id)
    &&& after.config == before.config
    &&& after.version == before.version
    &&& after.vault_nonce == before.vault_nonce
    &&& after.feed == before.feed
    &&& after.offchain_config == before.offchain_config
    &&& after.leftover_payments == before.leftover_payments
}

/// Computes the payments of a payout of all oracles, without making it.
/// `payees` names the oracles' payees in the order of the oracles.
pub fn prepare_payout(state: &State, payees: &[Pubkey]) -> (r: Result<Vec<Payment>, ErrorCode>)
    requires
        state.wf(),
    ensures
        match r {
            Ok(payments) => payout_refusal(*state, payees@) is None && payments@
                == payout_payments(*state),
            Err(e) => payout_refusal(*state, payees@) == Some(e),
        },
{
    let count = state.oracles.len();
    if payees.len() != count {
        return Err(ErrorCode::InvalidInput);
    }
    let latest_round_id = state.config.latest_aggregator_round_id;
    let billing = state.config.billing;
    let ghost rate = billing.observation_payment_gjuels;
    let ghost before = state.oracles@;
    let mut payments: Vec<Payment> = Vec::new();
    let mut i: usize = 0;
    while i < count
        invariant
            0 <= i <= count,
            count == before.len() == payees@.len(),
            state.oracles@ == before,
            latest_round_id == state.config.latest_aggregator_round_id,
            billing == state.config.billing,
            rate == billing.observation_payment_gjuels,
            payout_error(before, payees@, rate, latest_round_id, i as int) is None,
            payments@ == due_payments(before.take(i as int), rate, latest_round_id),
        decreases count - i,
    {
        let oracle = state.oracles.get(i);
        proof {
            assert(before.take(i + 1).drop_last() =~= before.take(i as int));
            assert(before.take(i + 1).last() == before[i as int]);
        }
        // the accounts given have to be the ones of the oracles
        if oracle.payee != payees[i] {
            proof {
                lemma_payout_error_stays(before, payees@, rate, latest_round_id, i + 1, count as int);
            }
            return Err(ErrorCode::InvalidInput);
        }
        let amount_gjuels = match calculate_owed_payment_gjuels(&billing, &oracle, latest_round_id) {
            Ok(amount) => amount,
            Err(e) => {
                proof {
                    lemma_payout_error_stays(
                        before,
                        payees@,
                        rate,
                        latest_round_id,
                        i + 1,
                        count as int,
                    );
                }
                return Err(e);
            },
        };
        if amount_gjuels != 0 {
            payments.push(Payment { payee: oracle.payee, amount: amount_gjuels });
        }
        i += 1;
    }
    proof {
        assert(before.take(count as int) =~= before);
    }
    Ok(payments)
}

/// Sets every oracle's balance to nothing as of the latest round.
pub fn settle_oracles(state: &mut State)
    requires
        old(state).wf(),
    ensures
        final(state).wf(),
        settled(*old(state), *final(state)),
{
    let count = state.oracles.len();
    let latest_round_id = state.config.latest_aggregator_round_id;
    let ghost before = state.oracles@;
    let mut k: usize = 0;
    while k < count
        invariant
            0 <= k <= count,
            count == before.len(),
            state.oracles@.len() == before.len(),
            forall|j: int| 0 <= j < k ==> state.oracles@[j] == paid(before[j], latest_round_id),
            forall|j: int| k <= j < count ==> state.oracles@[j] == before[j],
            state.config == old(state).config,
            state.version == old(state).version,
            state.vault_nonce == old(state).vault_nonce,
            state.feed == old(state).feed,
            state.offchain_config == old(state).offchain_config,
            state.leftover_payments == old(state).leftover_payments,
        decreases count - k,
    {
        let mut oracle = state.oracles.get(k);
        // reset reward and reimbursement
        oracle.payment_gjuels = 0;
        oracle.from_round_id = latest_round_id;
        state.oracles.set(k, oracle);
        k += 1;
    }
    proof {
        assert(state.oracles@ =~= all_paid(before, latest_round_id));
        lemma_all_paid_keeps_oracle_set(before, latest_round_id);
    }
}

/// Pays every oracle what it is owed. `payees` names the oracles' payees in
/// the order of the oracles. Gives the payments to make, those of nothing
/// left out, and sets every oracle's balance to nothing as of the latest
/// round. A refused payout changes nothing.
pub fn pay_oracles_impl(state: &mut State, payees: &[Pubkey]) -> (r: Result<Vec<Payment>, ErrorCode>)
    requires
        old(state).wf(),
    ensures
        final(state).wf(),
        match r {
            Ok(payments) => {
                &&& payout_refusal(*old(state), payees@) is None
                &&& payments@ == payout_payments(*old(state))
                &&& settled(*old(state), *final(state))
            },
            Err(e) => payout_refusal(*old(state), payees@) == Some(e) && *final(state) == *old(
                state,
            ),
        },
{
    let payments = match prepare_payout(state, payees) {
        Ok(payments) => payments,
        Err(e) => {
            return Err(e);
        },
    };
    settle_oracles(state);
    Ok(payments)
}

/// Whether an oracle of the set is paid to `payee`.
pub open spec fn has_payee(oracles: Seq<Oracle>, payee: Seq<u8>) -> bool {
    exists|i: int| 0 <= i < oracles.len() && (#[trigger] oracles[i]).payee@ == payee
}

/// The place of the first oracle that is paid to `payee`.
pub open spec fn payee_position(oracles: Seq<Oracle>, payee: Seq<u8>) -> int {
    choose|i: int|
        0 <= i < oracles.len() && (#[trigger] oracles[i]).payee@ == payee && forall|j: int|
            0 <= j < i ==> (#[trigger] oracles[j]).payee@ != payee
}

/// Where the first oracle that is paid to `payee` stands.
pub fn find_payee(oracles: &[Oracle], payee: &Pubkey) -> (r: Option<usize>)
    ensures
        match r {
            Some(i) => has_payee(oracles@, payee@) && i == payee_position(oracles@, payee@),
            None => !has_payee(oracles@, payee@),
        },
{
    let mut i: usize = 0;
    while i < oracles.len()
        invariant
            0 <= i <= oracles@.len(),
            forall|j: int| 0 <= j < i ==> (#[trigger] oracles@[j]).payee@ != payee@,
        decreases oracles@.len() - i,
    {
        if oracles[i].payee == *payee {
            proof {
                let p = payee_position(oracles@, payee@);
                assert(oracles@[i as int].payee@ == payee@);
                if p < i {
                    assert(oracles@[p].payee@ != payee@);
                }
            }
            return Some(i);
        }
        i += 1;
    }
    None
}

/// Why an oracle's own withdrawal is refused; `None` where it is not.
pub open spec fn withdraw_payment_error(
    state: State,
    payee: Pubkey,
    payee_mint: Pubkey,
    payee_owner: Pubkey,
    authority: Pubkey,
) -> Option<ErrorCode> {
    if payee_mint@ != state.config.token_mint@ {
        Some(ErrorCode::InvalidInput)
    } else if !has_payee(state.oracles@, payee@) {
        Some(ErrorCode::Unauthorized)
    } else if payee_owner@ != authority@ {
        Some(ErrorCode::Unauthorized)
    } else if owed_payment(
        state.config.billing.observation_payment_gjuels,
        state.oracles@[payee_position(state.oracles@, payee@)],
        state.config.latest_aggregator_round_id,
    ) is None {
        Some(ErrorCode::Overflow)
    } else {
        None
    }
}

/// Pays one oracle what it is owed, on the request of the owner of its
/// payee account. `payee_mint` and `payee_owner` are the mint and the owner
/// of the token account `payee`; `authority` signed the request. Gives the
/// amount to move, which may be nothing.
pub fn withdraw_payment(
    state: &mut State,
    payee: &Pubkey,
    payee_mint: &Pubkey,
    payee_owner: &Pubkey,
    authority: &Pubkey,
) -> (r: Result<u64, ErrorCode>)
    requires
        old(state).wf(),
    ensures
        final(state).wf(),
        match r {
            Ok(amount) => {
                let place = payee_position(old(state).oracles@, payee@);
                &&& withdraw_payment_error(
                    *old(state),
                    *payee,
                    *payee_mint,
                    *payee_owner,
                    *authority,
                ) is None
                &&& Some(amount) == owed_payment(
                    old(state).config.billing.observation_payment_gjuels,
                    old(state).oracles@[place],
                    old(state).config.latest_aggregator_round_id,
                )
                &&& final(state).oracles@ == old(state).oracles@.update(
                    place,
                    paid(old(state).oracles@[place], old(state).config.latest_aggregator_round_id),
                )
                &&& final(state).config == old(state).config
                &&& final(state).version == old(state).version
                &&& final(state).vault_nonce == old(state).vault_nonce
                &&& final(state).feed == old(state).feed
                &&& final(state).offchain_config == old(state).offchain_config
                &&& final(state).leftover_payments == old(state).leftover_payments
            },
            Err(e) => withdraw_payment_error(
                *old(state),
                *payee,
                *payee_mint,
                *payee_owner,
                *authority,
            ) == Some(e) && *final(state) == *old(state),
        },
{
    let latest_round_id = state.config.latest_aggregator_round_id;
    let billing = state.config.billing;

    // the token account has to be one of the feed's token
    if *payee_mint != state.config.token_mint {
        return Err(ErrorCode::InvalidInput);
    }
    let place = match find_payee(state.oracles.as_slice(), payee) {
        Some(place) => place,
        None => {
            return Err(ErrorCode::Unauthorized);
        },
    };
    // the request has to be signed by the authority of the token account
    if *payee_owner != *authority {
        return Err(ErrorCode::Unauthorized);
    }
    let mut oracle = state.oracles.get(place);
    let amount_gjuels = match calculate_owed_payment_gjuels(&billing, &oracle, latest_round_id) {
        Ok(amount) => amount,
        Err(e) => {
            return Err(e);
        },
    };
    // reset reward and reimbursement
    oracle.payment_gjuels = 0;
    oracle.from_round_id = latest_round_id;
    proof {
        let before = old(state).oracles@;
        let after = before.update(place as int, paid(before[place as int], latest_round_id));
        assert(signer_keys(after) =~= signer_keys(before));
        assert(transmitter_keys(after) =~= transmitter_keys(before));
    }
    state.oracles.set(place, oracle);
    Ok(amount_gjuels)
}

/// The smaller of two amounts.
pub open spec fn spec_min(a: u64, b: u64) -> u64 {
    if a <= b {
        a
    } else {
        b
    }
}

/// What of `balance` is left when `due` is taken off, nothing at the least.
pub open spec fn available_balance(balance: u64, due: u64) -> u64 {
    if balance >= due {
        (balance - due) as u64
    } else {
        0
    }
}

/// How much of `amount_gjuels` is withdrawn from a vault that holds
/// `balance_gjuels`: what the feed owes stays in the vault. The
/// owner may withdraw, and whoever the billing access controller lists.
pub fn withdraw_funds(
    state: &State,
    controller_key: &Pubkey,
    controller: &AccessController,
    authority: &Pubkey,
    amount_gjuels: u64,
    balance_gjuels: u64,
) -> (r: Result<u64, ErrorCode>)
    requires
        state.wf(),
        controller.wf(),
    ensures
        match r {
            Ok(amount) => {
                &&& billing_access_error(*state, *controller_key, *controller, *authority)
                    is None
                &&& match total_due(
                    state.config.billing.observation_payment_gjuels,
                    state.oracles@,
                    state.config.latest_aggregator_round_id,
                    state.leftover_payments@,
                ) {
                    Some(due) => amount == spec_min(
                        amount_gjuels,
                        available_balance(balance_gjuels, due),
                    ),
                    None => false,
                }
            },
            Err(e) => match billing_access_error(*state, *controller_key, *controller, *authority) {
                Some(refused) => e == refused,
                None => e == ErrorCode::Overflow && total_due(
                    state.config.billing.observation_payment_gjuels,
                    state.oracles@,
                    state.config.latest_aggregator_round_id,
                    state.leftover_payments@,
                ) is None,
            },
        },
{
    match has_billing_access(state, controller_key, controller, authority) {
        Ok(_) => {},
        Err(e) => {
            return Err(e);
        },
    }
    let available = match link_available_for_payment(state, balance_gjuels) {
        Ok(available) => available,
        Err(e) => {
            return Err(e);
        },
    };
    if amount_gjuels <= available {
        Ok(amount_gjuels)
    } else {
        Ok(available)
    }
}

/// What of a vault's balance is available for payment: what is not yet owed.
pub fn link_available_for_payment(state: &State, balance_gjuels: u64) -> (r: Result<u64, ErrorCode>)
    requires
        state.wf(),
    ensures
        match r {
            Ok(available) => match total_due(
                state.config.billing.observation_payment_gjuels,
                state.oracles@,
                state.config.latest_aggregator_round_id,
                state.leftover_payments@,
            ) {
                Some(due) => available == available_balance(balance_gjuels, due),
                None => false,
            },
            Err(e) => e == ErrorCode::Overflow && total_due(
                state.config.billing.observation_payment_gjuels,
                state.oracles@,
                state.config.latest_aggregator_round_id,
                state.leftover_payments@,
            ) is None,
        },
{
    let link_due = match calculate_total_link_due(
        &state.config,
        state.oracles.as_slice(),
        state.leftover_payments.as_slice(),
    ) {
        Ok(due) => due,
        Err(e) => {
            return Err(e);
        },
    };
    Ok(balance_gjuels.saturating_sub(link_due))
}

/// For how many rounds the oracle that transmits with `transmitter` is yet
/// to be paid; `InvalidInput` where no oracle does.
pub fn oracle_observation_count(state: &State, transmitter: &Pubkey) -> (r: Result<u32, ErrorCode>)
    requires
        state.wf(),
    ensures
        match r {
            Ok(count) => {
                let oracle = state.oracles@[transmitter_position(state.oracles@, transmitter@)];
                &&& has_transmitter(state.oracles@, transmitter@)
                &&& count == if state.config.latest_aggregator_round_id >= oracle.from_round_id {
                    state.config.latest_aggregator_round_id - oracle.from_round_id
                } else {
                    0
                }
            },
            Err(e) => e == ErrorCode::InvalidInput && !has_transmitter(
                state.oracles@,
                transmitter@,
            ),
        },
{
    match find_transmitter(state.oracles.as_slice(), transmitter) {
        Some(place) => {
            let oracle = state.oracles.get(place);
            Ok(state.config.latest_aggregator_round_id.saturating_sub(oracle.from_round_id))
        },
        None => Err(ErrorCode::InvalidInput),
    }
}

/// Whether a balance is left over from an earlier oracle set.
pub open spec fn payments_remaining(leftovers: Seq<LeftoverPayment>) -> bool {
    exists|i: int| 0 <= i < leftovers.len() && (#[trigger] leftovers[i]).amount != 0
}

/// Whether a balance is left over from an earlier oracle set.
pub fn has_payments_remaining(leftovers: &[LeftoverPayment]) -> (r: bool)
    ensures
        r == payments_remaining(leftovers@),
{
    let mut i: usize = 0;
    while i < leftovers.len()
        invariant
            0 <= i <= leftovers@.len(),
            forall|j: int| 0 <= j < i ==> (#[trigger] leftovers@[j]).amount == 0,
        decreases leftovers@.len() - i,
    {
        if leftovers[i].amount != 0 {
            return true;
        }
        i += 1;
    }
    false
}

/// Whether `payees` names the payees of the leftover balances, in their order.
pub open spec fn payees_match(leftovers: Seq<LeftoverPayment>, payees: Seq<Pubkey>) -> bool {
    &&& leftovers.len() == payees.len()
    &&& forall|i: int| 0 <= i < leftovers.len() ==> (#[trigger] leftovers[i]).payee@ == payees[i]@
}

/// The leftover balances that are more than nothing, as payments.
pub open spec fn leftover_due(leftovers: Seq<LeftoverPayment>) -> Seq<Payment>
    decreases leftovers.len(),
{
    if leftovers.len() == 0 {
        Seq::empty()
    } else {
        let rest = leftover_due(leftovers.drop_last());
        if leftovers.last().amount != 0 {
            rest.push(Payment { payee: leftovers.last().payee, amount: leftovers.last().amount })
        } else {
            rest
        }
    }
}

/// Pays what is left over from the oracle set before the current one.
/// `payees` names the payees of the leftover balances in their order, else
/// `InvalidInput`. Gives the payments to make and forgets the balances. Who
/// may ask for it is not checked here: see `pay_remaining`.
pub fn pay_remaining_impl(state: &mut State, payees: &[Pubkey]) -> (r: Result<Vec<Payment>, ErrorCode>)
    requires
        old(state).wf(),
    ensures
        final(state).wf(),
        match r {
            Ok(payments) => {
                &&& payees_match(old(state).leftover_payments@, payees@)
                &&& payments@ == leftover_due(old(state).leftover_payments@)
                &&& final(state).leftover_payments@ == Seq::<LeftoverPayment>::empty()
                &&& final(state).oracles == old(state).oracles
                &&& final(state).config == old(state).config
                &&& final(state).version == old(state).version
                &&& final(state).vault_nonce == old(state).vault_nonce
                &&& final(state).feed == old(state).feed
                &&& final(state).offchain_config == old(state).offchain_config
            },
            Err(e) => e == ErrorCode::InvalidInput && !payees_match(
                old(state).leftover_payments@,
                payees@,
            ) && *final(state) == *old(state),
        },
{
    let count = state.leftover_payments.len();
    if payees.len() != count {
        return Err(ErrorCode::InvalidInput);
    }
    let ghost before = state.leftover_payments@;
    let mut payments: Vec<Payment> = Vec::new();
    let mut i: usize = 0;
    while i < count
        invariant
            0 <= i <= count,
            count == before.len() == payees@.len(),
            state.leftover_payments@ == before,
            *state == *old(state),
            state.wf(),
            forall|j: int| 0 <= j < i ==> (#[trigger] before[j]).payee@ == payees@[j]@,
            payments@ == leftover_due(before.take(i as int)),
        decreases count - i,
    {
        let leftover = state.leftover_payments.get(i);
        proof {
            assert(before.take(i + 1).drop_last() =~= before.take(i as int));
            assert(before.take(i + 1).last() == before[i as int]);
        }
        // the accounts given have to be the ones of the leftover payments
        if leftover.payee != payees[i] {
            return Err(ErrorCode::InvalidInput);
        }
        if leftover.amount != 0 {
            payments.push(Payment { payee: leftover.payee, amount: leftover.amount });
        }
        i += 1;
    }
    proof {
        assert(before.take(count as int) =~= before);
    }
    state.leftover_payments.clear();
    Ok(payments)
}

} // verus!
